use codex_usage_tray::double::Double;
use codex_usage_tray::json::parse_json;
use codex_usage_tray::limits::{
    display_plan, display_rate_limits, display_rate_limits_at, int_field, number_field, pace_color,
    pace_delta_markup, pace_text, pace_window_at, parse_rate_limits, parse_window, primary_pace,
    rate_color, rate_limits_valid_at, usage_bar, window_full, window_present, window_short, Pace,
    RateLimits, WindowLimit,
};

fn double(x: f64) -> Double {
    Double { bits: x.to_bits() }
}

fn window(used: f64, resets_at: Option<i64>, mins: Option<i64>) -> WindowLimit {
    WindowLimit { used_percent: double(used), resets_at, window_duration_mins: mins }
}

fn pace(ahead: f64, expected: f64) -> Option<Pace> {
    Some(Pace {
        ahead_percent: double(ahead),
        difference: format!("{:.1}", ahead.abs()),
        expected: format!("{expected:.1}"),
    })
}

#[test]
fn windows_are_named_by_their_length() {
    for (mins, short, full) in [
        (Some(300), "5h", "5h"),
        (Some(10080), "W", "Weekly"),
        (Some(1440), "W", "Weekly"),
        (Some(1439), "lim", "Limit"),
        (Some(-5), "lim", "Limit"),
        (None, "lim", "Limit"),
    ] {
        assert_eq!(window_short(mins), short);
        assert_eq!(window_full(mins), full);
    }
}

#[test]
fn a_window_is_present_with_its_reset() {
    assert!(!window_present(&WindowLimit::default()));
    assert!(window_present(&window(0.0, Some(0), None)));
}

#[test]
fn session_limits_are_read() {
    let payload = parse_json(
        r#"{"rate_limits":{"plan_type":"plus",
            "primary":{"used_percent":12,"resets_at":100,"windowDurationMins":300},
            "secondary":{"used_percent":1.5,"resets_at":"x","window_duration_mins":10080}}}"#,
    )
    .unwrap();
    let rate = parse_rate_limits(&payload).unwrap();
    assert_eq!(rate.plan_type, "plus");
    assert_eq!(rate.primary, window(12.0, Some(100), Some(300)));
    assert_eq!(rate.secondary, window(1.5, None, Some(10080)));
    assert!(parse_rate_limits(&parse_json("{}").unwrap()).is_none());
    let empty = parse_rate_limits(&parse_json(r#"{"rate_limits":null}"#).unwrap()).unwrap();
    assert_eq!(empty.plan_type, "n/a");
    assert_eq!(empty.primary, WindowLimit::default());
    assert_eq!(parse_window(None), WindowLimit::default());
}

#[test]
fn fields_are_read_under_either_name() {
    let value = parse_json(r#"{"a_b":1.9,"aB":7,"c_d":"x","cD":8}"#).unwrap();
    assert_eq!(number_field(&value, "a_b", "aB"), Some(double(1.9)));
    assert_eq!(int_field(&value, "a_b", "aB"), Some(1));
    assert_eq!(int_field(&value, "zz", "aB"), Some(7));
    assert_eq!(number_field(&value, "c_d", "cD"), None);
    assert_eq!(int_field(&value, "zz", "yy"), None);
}

#[test]
fn limits_are_current_while_the_primary_window_is_open() {
    let rate = RateLimits {
        plan_type: "plus".into(),
        primary: window(1.0, Some(100), None),
        secondary: window(1.0, Some(1000), None),
    };
    assert!(rate_limits_valid_at(&rate, 99));
    assert!(!rate_limits_valid_at(&rate, 100));
    assert!(display_rate_limits_at(&rate, 99).is_some());
    assert!(display_rate_limits_at(&rate, 100).is_none());
    assert!(display_rate_limits(&rate).is_none());
    let open = RateLimits { primary: window(1.0, Some(i64::MAX), None), ..rate };
    assert_eq!(display_rate_limits(&open).unwrap().plan_type, "plus");
    let unknown = RateLimits::default();
    assert!(!rate_limits_valid_at(&unknown, i64::MIN));
}

#[test]
fn plans_are_named() {
    assert_eq!(display_plan("prolite"), "$100 Pro (Pro Lite)");
    assert_eq!(display_plan("plus"), "plus");
    assert_eq!(display_plan(""), "");
}

#[test]
fn colors_follow_usage() {
    for x in [-5.0, 0.0, 59.999, 60.0, 84.999, 85.0, 100.0, f64::NAN, f64::INFINITY] {
        let expected = if x >= 85.0 {
            "#e35d5d"
        } else if x >= 60.0 {
            "#e5b454"
        } else {
            "#35c46a"
        };
        assert_eq!(rate_color(double(x)), expected);
    }
}

#[test]
fn bars_follow_usage() {
    let mut all = vec![f64::NAN, f64::INFINITY, f64::NEG_INFINITY, -0.0, 1e300];
    for n in -20..250 {
        let x = n as f64 * 0.5;
        all.push(x);
        all.push(f64::from_bits(x.to_bits() + 1));
        all.push(f64::from_bits(x.to_bits().wrapping_sub(1)));
    }
    for x in all {
        let filled = ((x.clamp(0.0, 100.0) / 10.0).round() as usize).clamp(0, 10);
        let expected = format!("{}{}", "▰".repeat(filled), "▱".repeat(10 - filled));
        assert_eq!(usage_bar(double(x)), expected, "{x}");
    }
}

#[test]
fn pace_is_measured_in_the_window() {
    let w = window(50.0, Some(10_000), Some(100));
    let p = pace_window_at(&w, 7_000).unwrap();
    assert_eq!((p.elapsed, p.window_secs), (3_000, 6_000));
    let early = pace_window_at(&w, 0).unwrap();
    assert_eq!((early.elapsed, early.window_secs), (0, 6_000));
    let late = pace_window_at(&w, 20_000).unwrap();
    assert_eq!((late.elapsed, late.window_secs), (6_000, 6_000));
    let unknown = pace_window_at(&window(1.0, Some(18_000), None), 0).unwrap();
    assert_eq!((unknown.elapsed, unknown.window_secs), (0, 18_000));
    let short = pace_window_at(&window(1.0, Some(0), Some(-3)), 0).unwrap();
    assert_eq!((short.elapsed, short.window_secs), (60, 60));
    assert!(pace_window_at(&WindowLimit::default(), 0).is_none());
}

#[test]
fn pace_is_measured_now() {
    let now = chrono::Utc::now().timestamp();
    let p = primary_pace(&window(1.0, Some(now + 9_000), Some(300))).unwrap();
    assert_eq!(p.window_secs, 18_000);
    assert!(9_000 <= p.elapsed && p.elapsed <= 9_005);
    assert!(primary_pace(&WindowLimit::default()).is_none());
}

#[test]
fn pace_is_worded() {
    assert_eq!(pace_text(&None), "n/a");
    assert_eq!(pace_text(&pace(10.0, 5.0)), "fast by 10.0%");
    assert_eq!(pace_text(&pace(9.99, 5.0)), "ahead by 10.0%");
    assert_eq!(pace_text(&pace(1.5, 5.0)), "ahead by 1.5%");
    assert_eq!(pace_text(&pace(1.0, 5.0)), "on pace");
    assert_eq!(pace_text(&pace(-1.0, 5.0)), "on pace");
    assert_eq!(pace_text(&pace(-1.25, 5.0)), "slow by 1.2%");
}

#[test]
fn pace_is_marked_up() {
    assert_eq!(pace_delta_markup(&None), "<b>Pace:</b>  n/a");
    assert_eq!(pace_delta_markup(&pace(0.25, 5.0)), "<b>Pace:</b>  on pace");
    assert_eq!(pace_delta_markup(&pace(-0.25, 5.0)), "<b>Pace:</b>  on pace");
    assert_eq!(
        pace_delta_markup(&pace(0.5, 5.0)),
        "<b>Pace:</b>  0.5% ↑ faster than expected"
    );
    assert_eq!(
        pace_delta_markup(&pace(-12.0, 5.0)),
        "<b>Pace:</b>  12.0% ↓ slower than expected"
    );
}

#[test]
fn pace_is_colored() {
    assert_eq!(pace_color(&None), "#627284");
    assert_eq!(pace_color(&pace(10.0, 0.0)), "#e35d5d");
    assert_eq!(pace_color(&pace(5.5, 0.0)), "#e5b454");
    assert_eq!(pace_color(&pace(5.0, 0.0)), "#35c46a");
    assert_eq!(pace_color(&pace(-50.0, 0.0)), "#35c46a");
}
