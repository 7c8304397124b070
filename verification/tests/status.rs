use codex_usage_tray::double::Double;
use codex_usage_tray::json::{parse_json, Json};
use codex_usage_tray::limits::{parse_rate_limit_snapshot, RateLimits, WindowLimit};
use codex_usage_tray::status::{
    auth_status_label, live_wait, rate_limits_still_valid, resolve_codex_status,
    resolve_codex_status_at, CodexStatus, LiveEvent, LiveFetch, LiveStep, LiveWait, StatusSource,
    INITIALIZE_REQUEST, READ_LIMITS_REQUEST,
};

fn double(x: f64) -> Double {
    Double { bits: x.to_bits() }
}

fn window(used_percent: f64, resets_at: Option<i64>) -> WindowLimit {
    WindowLimit { used_percent: double(used_percent), resets_at, ..Default::default() }
}

fn limits(plan: &str, primary: WindowLimit, secondary: WindowLimit) -> RateLimits {
    RateLimits { plan_type: plan.into(), primary, secondary }
}

#[test]
fn expired_primary_is_not_valid() {
    let now = chrono::Utc::now().timestamp();
    let rate = RateLimits {
        plan_type: "plus".into(),
        primary: WindowLimit {
            used_percent: double(25.0),
            resets_at: Some(now - 60),
            ..Default::default()
        },
        secondary: WindowLimit {
            used_percent: double(40.0),
            resets_at: Some(now + 3600),
            ..Default::default()
        },
    };
    assert!(!rate_limits_still_valid(&rate));
}

#[test]
fn open_primary_is_valid() {
    let now = chrono::Utc::now().timestamp();
    let rate = RateLimits {
        plan_type: "plus".into(),
        primary: WindowLimit {
            used_percent: double(1.0),
            resets_at: Some(now + 3600),
            ..Default::default()
        },
        secondary: WindowLimit {
            used_percent: double(67.0),
            resets_at: Some(now + 86400),
            ..Default::default()
        },
    };
    assert!(rate_limits_still_valid(&rate));
}

#[test]
fn parses_camel_case_app_server_snapshot() {
    let raw = parse_json(
        r#"{
            "planType": "plus",
            "primary": {"usedPercent": 1, "windowDurationMins": 300, "resetsAt": 1783614415},
            "secondary": {"usedPercent": 67, "windowDurationMins": 10080, "resetsAt": 1783694508}
        }"#,
    )
    .unwrap();
    let rate = parse_rate_limit_snapshot(&raw).unwrap();
    assert_eq!(rate.plan_type, "plus");
    assert_eq!(f64::from_bits(rate.primary.used_percent.bits), 1.0);
    assert_eq!(f64::from_bits(rate.secondary.used_percent.bits), 67.0);
    assert_eq!(rate.primary.resets_at, Some(1783614415));
}

#[test]
fn parses_snake_case_snapshot_and_fractions() {
    let raw = parse_json(
        r#"{"plan_type":"pro","primary":{"used_percent":12.5,"resets_at":1700000000.9,"window_duration_mins":300},"secondary":{}}"#,
    )
    .unwrap();
    let rate = parse_rate_limit_snapshot(&raw).unwrap();
    assert_eq!(rate.plan_type, "pro");
    assert_eq!(rate.primary.used_percent, double(12.5));
    assert_eq!(rate.primary.resets_at, Some(1700000000));
    assert_eq!(rate.primary.window_duration_mins, Some(300));
    assert_eq!(rate.secondary, WindowLimit::default());
    let empty = parse_rate_limit_snapshot(&Json::Null).unwrap();
    assert_eq!(empty.plan_type, "n/a");
    assert_eq!(empty.primary, WindowLimit::default());
}

#[test]
fn source_labels() {
    assert_eq!(
        StatusSource::LiveAppServer.label(),
        "codex app-server account/rateLimits/read"
    );
    assert_eq!(
        StatusSource::LocalSessionJsonl.label(),
        "local ~/.codex/sessions token_count"
    );
    assert_eq!(StatusSource::Unavailable.label(), "none");
    assert_eq!(StatusSource::default(), StatusSource::Unavailable);
}

#[test]
fn default_status_is_unavailable() {
    let status = CodexStatus::default();
    assert!(status.rate_limits.is_none());
    assert_eq!(status.source, StatusSource::Unavailable);
    assert_eq!(status.auth_status, "");
    assert_eq!(status.fetched_at, None);
    assert!(status.error.is_none());
}

#[test]
fn auth_labels() {
    assert_eq!(auth_status_label(true), "ChatGPT/Codex auth configured");
    assert_eq!(auth_status_label(false), "Auth not found (run: codex login)");
}

#[test]
fn live_limits_come_first() {
    let live = limits("pro", window(5.0, Some(2000)), window(6.0, Some(9000)));
    let local = limits("plus", window(50.0, Some(5000)), window(60.0, Some(9000)));
    let status = resolve_codex_status_at(Some(local), Ok(live), "auth".into(), 1000, 1001);
    assert_eq!(status.source, StatusSource::LiveAppServer);
    assert_eq!(status.rate_limits.unwrap().plan_type, "pro");
    assert_eq!(status.fetched_at, Some(1001));
    assert_eq!(status.auth_status, "auth");
    assert!(status.error.is_none());
}

#[test]
fn live_limits_are_taken_as_they_are() {
    let live = limits("pro", window(5.0, Some(1)), window(6.0, None));
    let status = resolve_codex_status_at(None, Ok(live), "".into(), 1000, 1001);
    assert_eq!(status.source, StatusSource::LiveAppServer);
    assert_eq!(status.rate_limits.unwrap().primary.resets_at, Some(1));
}

#[test]
fn local_limits_stand_in_while_current() {
    let local = limits("plus", window(50.0, Some(5000)), window(60.0, None));
    let status = resolve_codex_status_at(Some(local), Err("down".into()), "a".into(), 4999, 5001);
    assert_eq!(status.source, StatusSource::LocalSessionJsonl);
    assert_eq!(status.rate_limits.unwrap().plan_type, "plus");
    assert_eq!(status.error.as_deref(), Some("down"));
    assert_eq!(status.fetched_at, Some(5001));
}

#[test]
fn expired_local_limits_are_unavailable() {
    let local = limits("plus", window(50.0, Some(5000)), window(60.0, Some(99999)));
    let status = resolve_codex_status_at(Some(local), Err("down".into()), "a".into(), 5000, 5001);
    assert_eq!(status.source, StatusSource::Unavailable);
    assert!(status.rate_limits.is_none());
    assert_eq!(status.error.as_deref(), Some("down"));
    let none = resolve_codex_status_at(None, Err("down".into()), "a".into(), 0, 1);
    assert_eq!(none.source, StatusSource::Unavailable);
}

#[test]
fn resolved_status_is_stamped_with_the_clock() {
    let before = chrono::Utc::now().timestamp();
    let status = resolve_codex_status(None, Err("down".into()), "a".into());
    let after = chrono::Utc::now().timestamp();
    let at = status.fetched_at.unwrap();
    assert!(before <= at && at <= after);
    let local = limits("plus", window(1.0, Some(after + 600)), window(1.0, None));
    let status = resolve_codex_status(Some(local), Err("down".into()), "a".into());
    assert_eq!(status.source, StatusSource::LocalSessionJsonl);
}

fn failed(step: LiveStep) -> (String, bool) {
    match step {
        LiveStep::Failed { error, stop } => (error, stop),
        other => panic!("unexpected step {other:?}"),
    }
}

fn line(text: &str) -> LiveEvent {
    LiveEvent::Line(text.to_string())
}

#[test]
fn conversation_asks_once_and_reads_limits() {
    let mut fetch = LiveFetch::new();
    assert!(matches!(fetch.on_event(LiveEvent::Silence), LiveStep::Wait));
    assert!(matches!(fetch.on_event(line("not json")), LiveStep::Wait));
    assert!(matches!(
        fetch.on_event(line(r#"{"method":"notice"}"#)),
        LiveStep::Wait
    ));
    assert!(matches!(
        fetch.on_event(line(r#"{"id":1,"result":{}}"#)),
        LiveStep::AskForLimits
    ));
    assert!(matches!(
        fetch.on_event(line(r#"{"id":1,"result":{}}"#)),
        LiveStep::Wait
    ));
    let step = fetch.on_event(line(
        r#"{"id":2,"result":{"rateLimits":{"planType":"plus","primary":{"usedPercent":7.5,"resetsAt":99}}}}"#,
    ));
    match step {
        LiveStep::Limits(rate) => {
            assert_eq!(rate.plan_type, "plus");
            assert_eq!(rate.primary.used_percent, double(7.5));
            assert_eq!(rate.primary.resets_at, Some(99));
        }
        other => panic!("unexpected step {other:?}"),
    }
}

#[test]
fn conversation_reports_errors() {
    let text = r#"{"id":1,"error":{"code":-1}}"#;
    assert_eq!(
        failed(LiveFetch::new().on_event(line(text))),
        (format!("initialize error: {text}"), true)
    );
    assert_eq!(
        failed(LiveFetch::new().on_event(line(r#"{"id": 2, "error": {"message": "no",   "code": 7}}"#))),
        (
            r#"rateLimits/read error: {"code":7,"message":"no"}"#.to_string(),
            true
        )
    );
    assert_eq!(
        failed(LiveFetch::new().on_event(line(r#"{"id":2,"error":null}"#))),
        ("rateLimits/read error: null".to_string(), true)
    );
    assert_eq!(
        failed(LiveFetch::new().on_event(line(r#"{"id":2}"#))),
        ("rateLimits/read missing result".to_string(), false)
    );
    assert_eq!(
        failed(LiveFetch::new().on_event(line(r#"{"id":2,"result":{}}"#))),
        ("rateLimits/read missing rateLimits".to_string(), false)
    );
    assert_eq!(
        failed(LiveFetch::new().on_event(LiveEvent::ReadFailed("read app-server: x".into()))),
        ("read app-server: x".to_string(), true)
    );
}

#[test]
fn conversation_that_is_over_says_why() {
    let mut fetch = LiveFetch::new();
    assert_eq!(
        failed(fetch.on_event(LiveEvent::Over)).0,
        "timed out waiting for app-server initialize"
    );
    let mut half = LiveFetch { init_ok: true, requested_limits: false };
    assert_eq!(
        failed(half.on_event(LiveEvent::Over)).0,
        "initialize ok but rateLimits/read was not sent"
    );
    fetch.on_event(line(r#"{"id":1}"#));
    assert_eq!(
        failed(fetch.on_event(LiveEvent::Over)),
        ("timed out waiting for account/rateLimits/read".to_string(), true)
    );
}

#[test]
fn other_ids_are_passed_over() {
    let mut fetch = LiveFetch::new();
    for text in [r#"{"id":-1}"#, r#"{"id":"1"}"#, r#"{"id":1.5}"#, r#"{"id":3,"error":1}"#, "[1]"] {
        assert!(matches!(fetch.on_event(line(text)), LiveStep::Wait));
    }
    assert_eq!(fetch, LiveFetch::new());
}

#[test]
fn requests_are_json() {
    let init = parse_json(INITIALIZE_REQUEST).unwrap();
    assert_eq!(init.get("id").unwrap().as_u64(), Some(1));
    assert_eq!(init.get("method").unwrap().as_str(), Some("initialize"));
    let read = parse_json(READ_LIMITS_REQUEST).unwrap();
    assert_eq!(read.get("id").unwrap().as_u64(), Some(2));
    assert_eq!(
        read.get("method").unwrap().as_str(),
        Some("account/rateLimits/read")
    );
}

#[test]
fn the_service_is_waited_for_in_pieces_until_the_time_is_up() {
    assert_eq!(live_wait(0), LiveWait::AtMost(250));
    assert_eq!(live_wait(19_750), LiveWait::AtMost(250));
    assert_eq!(live_wait(19_751), LiveWait::AtMost(249));
    assert_eq!(live_wait(19_999), LiveWait::AtMost(1));
    assert_eq!(live_wait(20_000), LiveWait::Over);
    assert_eq!(live_wait(u64::MAX), LiveWait::Over);
}
