use codex_usage_tray::clock::{parse_timestamp, Day};
use codex_usage_tray::sessions::{parse_file_stats, FileStats};

fn same(name: String) -> String {
    name
}

fn upper(name: String) -> String {
    name.to_uppercase()
}

fn tokens(timestamp: &str, total: i64) -> String {
    format!(
        r#"{{"type":"event_msg","timestamp":"{timestamp}","payload":{{"type":"token_count","info":{{"last_token_usage":{{"input_tokens":{},"cached_input_tokens":1,"output_tokens":2,"reasoning_output_tokens":3,"total_tokens":{total}}}}}}}}}"#,
        total * 10
    )
}

fn limits(timestamp: &str, plan: &str) -> String {
    format!(
        r#"{{"type":"event_msg","timestamp":"{timestamp}","payload":{{"type":"token_count","rate_limits":{{"plan_type":"{plan}","primary":{{"used_percent":5,"resets_at":9}}}}}}}}"#
    )
}

fn total_of(stats: &FileStats, model: &str) -> Option<i64> {
    stats.by_model.get(&model.to_string()).map(|u| u.total_tokens)
}

#[test]
fn an_empty_file_holds_nothing() {
    let stats = parse_file_stats("", &same);
    assert_eq!(stats.events_seen, 0);
    assert_eq!(stats.total.total_tokens, 0);
    assert!(stats.by_model.entries.is_empty());
    assert!(stats.rate_limits.is_none());
    assert!(stats.latest_rate_at.is_none());
}

#[test]
fn tokens_are_counted_by_model_day_and_month() {
    let noon = "2025-07-09T12:00:00Z";
    let later = "2025-09-20T12:00:00Z";
    let content = [
        tokens(noon, 1),
        r#"{"type":"session_meta","payload":{"model":"gpt-5"}}"#.to_string(),
        tokens(noon, 10),
        "".to_string(),
        "  \t".to_string(),
        "broken {".to_string(),
        r#"{"type":"turn_context","payload":{"model":"gpt-5.4"}}"#.to_string(),
        r#"{"type":"turn_context","payload":{"model":7}}"#.to_string(),
        tokens(later, 100),
        r#"{"type":"event_msg","payload":{"type":"other"}}"#.to_string(),
        r#"{"type":"token_count"}"#.to_string(),
        r#"{"payload":{"type":"token_count"}}"#.to_string(),
    ]
    .join("\r\n");
    let stats = parse_file_stats(&content, &same);
    assert_eq!(stats.events_seen, 3);
    assert_eq!(stats.total.total_tokens, 111);
    assert_eq!(stats.total.input_tokens, 1110);
    assert_eq!(stats.total.reasoning_output_tokens, 9);
    assert_eq!(total_of(&stats, "unknown"), Some(1));
    assert_eq!(total_of(&stats, "gpt-5"), Some(10));
    assert_eq!(total_of(&stats, "gpt-5.4"), Some(100));
    let day: Day = parse_timestamp(noon).unwrap().day;
    assert_eq!(stats.by_day.get(&day).unwrap().total_tokens, 11);
    let models = stats.by_day_model.get(&day).unwrap();
    assert_eq!(models.get(&"gpt-5".to_string()).unwrap().total_tokens, 10);
    assert_eq!(stats.by_month.get(&day.month_of()).unwrap().total_tokens, 11);
    let month = parse_timestamp(later).unwrap().day.month_of();
    assert_eq!(stats.by_month.get(&month).unwrap().total_tokens, 100);
    assert_eq!(
        stats.by_month_model.get(&month).unwrap().get(&"gpt-5.4".to_string()).unwrap().total_tokens,
        100
    );
}

#[test]
fn model_names_are_normalized() {
    let content = [
        tokens("2025-07-09T12:00:00Z", 1),
        r#"{"type":"session_meta","payload":{"model":"gpt"}}"#.to_string(),
        tokens("2025-07-09T12:00:00Z", 2),
    ]
    .join("\n");
    let stats = parse_file_stats(&content, &upper);
    assert_eq!(total_of(&stats, "unknown"), Some(1));
    assert_eq!(total_of(&stats, "GPT"), Some(2));
}

#[test]
fn the_latest_limits_win() {
    let content = [
        limits("2025-07-09T12:00:00Z", "first"),
        limits("2025-07-09T12:00:05Z", "latest"),
        limits("2025-07-09T12:00:04Z", "older"),
        limits("2025-07-09T14:00:05+02:00", "same moment"),
    ]
    .join("\n");
    let stats = parse_file_stats(&content, &same);
    assert_eq!(stats.rate_limits.unwrap().plan_type, "latest");
    assert_eq!(
        stats.latest_rate_at,
        Some(parse_timestamp("2025-07-09T12:00:05Z").unwrap().at)
    );
    assert_eq!(stats.events_seen, 0);
}

#[test]
fn a_count_without_a_time_falls_on_now() {
    let before = chrono::Utc::now().timestamp();
    let stats = parse_file_stats(&limits("yesterday", "plan"), &same);
    let after = chrono::Utc::now().timestamp();
    let at = stats.latest_rate_at.unwrap().secs;
    assert!(before <= at && at <= after);
}

#[test]
fn ignored_lines_change_nothing() {
    let noon = "2025-07-09T12:00:00Z";
    let lines = [
        r#"{"type":"session_meta","payload":{"model":"gpt-5"}}"#.to_string(),
        limits(noon, "plan"),
        tokens(noon, 10),
        tokens("2025-07-10T12:00:00Z", 5),
    ];
    let plain = parse_file_stats(&lines.join("\n"), &same);
    let mut noisy = Vec::new();
    for line in &lines {
        noisy.extend(["", " \t", "{broken", "[]", "7", r#"{"type":"response_item","payload":{}}"#]);
        noisy.push(line.as_str());
    }
    let other = parse_file_stats(&noisy.join("\r\n"), &same);
    assert_eq!(other.total, plain.total);
    assert_eq!(other.events_seen, plain.events_seen);
    assert_eq!(other.by_model.entries, plain.by_model.entries);
    assert_eq!(other.by_day.entries, plain.by_day.entries);
    assert_eq!(other.by_month.entries, plain.by_month.entries);
    assert_eq!(other.latest_rate_at, plain.latest_rate_at);
    assert_eq!(other.rate_limits.unwrap().plan_type, plain.rate_limits.unwrap().plan_type);
}
