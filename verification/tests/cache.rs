use std::cell::RefCell;

use codex_usage_tray::cache::{
    aggregate_cached_stats, collect_stats, collect_stats_at, collect_stats_cached, CollectClock,
    FoundFile, StatsCache,
};
use codex_usage_tray::clock::{parse_timestamp, Day};
use codex_usage_tray::double::Double;
use codex_usage_tray::limits::{RateLimits, WindowLimit};
use codex_usage_tray::stats::{apply_status, Stats};
use codex_usage_tray::status::{CodexStatus, StatusSource};

fn same(name: String) -> String {
    name
}

fn day() -> Day {
    parse_timestamp("2025-07-09T12:00:00Z").unwrap().day
}

fn file(path: &str, key: Option<(u64, u128)>) -> FoundFile {
    FoundFile { path: path.as_bytes().to_vec(), key }
}

fn content(timestamp: &str, total: i64, plan: &str, resets_at: i64) -> String {
    format!(
        r#"{{"type":"event_msg","timestamp":"{timestamp}","payload":{{"type":"token_count","rate_limits":{{"plan_type":"{plan}","primary":{{"used_percent":5,"resets_at":{resets_at}}}}},"info":{{"last_token_usage":{{"total_tokens":{total}}}}}}}}}"#
    )
}

/// Collects from files with the given contents, and says which were read.
fn collect(
    cache: &mut StatsCache,
    today: Day,
    found: &Vec<FoundFile>,
    contents: &[Option<String>],
) -> (Stats, Vec<usize>) {
    let read: RefCell<Vec<usize>> = RefCell::new(Vec::new());
    let stats = collect_stats_cached(
        cache,
        today,
        found,
        &|i: usize| {
            read.borrow_mut().push(i);
            contents[i].clone()
        },
        &same,
    );
    (stats, read.into_inner())
}

#[test]
fn files_are_read_once_and_again_when_they_change() {
    let mut cache = StatsCache::new();
    let contents = [
        Some(content("2025-07-09T12:00:00Z", 1, "a", 5)),
        Some(content("2025-07-09T12:00:01Z", 10, "b", 5)),
        None,
    ];
    let mut found = vec![
        file("/s/a.jsonl", Some((10, 1))),
        file("/s/b.jsonl", Some((20, 2))),
        file("/s/c.jsonl", Some((30, 3))),
    ];
    let (stats, read) = collect(&mut cache, day(), &found, &contents);
    assert_eq!(read, vec![0, 1, 2]);
    assert_eq!(stats.files_seen, 3);
    assert_eq!(stats.events_seen, 2);
    assert_eq!(stats.total.total_tokens, 11);
    assert_eq!(stats.today.total_tokens, 11);
    assert_eq!(stats.month.total_tokens, 11);
    assert_eq!(stats.rate_limits.as_ref().unwrap().plan_type, "b");

    let (again, read) = collect(&mut cache, day(), &found, &contents);
    assert_eq!(read, Vec::<usize>::new());
    assert_eq!(again.total, stats.total);
    assert_eq!(again.rate_limits.unwrap().plan_type, "b");

    found[0].key = Some((11, 1));
    let (_, read) = collect(&mut cache, day(), &found, &contents);
    assert_eq!(read, vec![0]);
    found[1].key = Some((20, 9));
    let (_, read) = collect(&mut cache, day(), &found, &contents);
    assert_eq!(read, vec![1]);
}

#[test]
fn files_that_are_gone_are_dropped() {
    let mut cache = StatsCache::new();
    let contents = [
        Some(content("2025-07-09T12:00:00Z", 1, "a", 5)),
        Some(content("2025-07-09T12:00:01Z", 10, "b", 5)),
    ];
    let both = vec![file("/s/a.jsonl", Some((10, 1))), file("/s/b.jsonl", Some((20, 2)))];
    collect(&mut cache, day(), &both, &contents);
    let one = vec![file("/s/a.jsonl", Some((10, 1)))];
    let (stats, read) = collect(&mut cache, day(), &one, &contents);
    assert!(read.is_empty());
    assert_eq!(stats.files_seen, 1);
    assert_eq!(stats.total.total_tokens, 1);
    assert_eq!(stats.rate_limits.unwrap().plan_type, "a");
    assert_eq!(cache.files.len(), 1);
    let (stats, _) = collect(&mut cache, day(), &Vec::new(), &contents);
    assert_eq!(stats.files_seen, 0);
    assert!(stats.rate_limits.is_none());
}

#[test]
fn a_file_without_a_key_stays_as_it_was() {
    let mut cache = StatsCache::new();
    let contents = [Some(content("2025-07-09T12:00:00Z", 4, "a", 5))];
    let unknown = vec![file("/s/a.jsonl", None)];
    let (stats, read) = collect(&mut cache, day(), &unknown, &contents);
    assert!(read.is_empty());
    assert_eq!(stats.files_seen, 0);
    collect(&mut cache, day(), &vec![file("/s/a.jsonl", Some((1, 1)))], &contents);
    let (stats, read) = collect(&mut cache, day(), &unknown, &contents);
    assert!(read.is_empty());
    assert_eq!(stats.total.total_tokens, 4);
}

#[test]
fn another_day_is_added_up_anew() {
    let mut cache = StatsCache::new();
    let contents = [Some(content("2025-07-09T12:00:00Z", 4, "a", 5))];
    let found = vec![file("/s/a.jsonl", Some((1, 1)))];
    collect(&mut cache, day(), &found, &contents);
    let tomorrow = Day { day: day().day + 1, ..day() };
    let (stats, read) = collect(&mut cache, tomorrow, &found, &contents);
    assert!(read.is_empty());
    assert_eq!(stats.today.total_tokens, 0);
    assert_eq!(stats.month.total_tokens, 4);
    assert_eq!(stats.total.total_tokens, 4);
    let next_month = Day { month: 8, ..day() };
    let (stats, _) = collect(&mut cache, next_month, &found, &contents);
    assert_eq!(stats.month.total_tokens, 0);
    assert_eq!(stats.total.total_tokens, 4);
}

#[test]
fn the_cached_sum_is_the_sum_of_the_files() {
    let mut cache = StatsCache::default();
    let contents = [
        Some(content("2025-07-09T12:00:00Z", 1, "a", 5)),
        Some(content("2025-07-09T11:00:00Z", 2, "b", 5)),
    ];
    let found = vec![file("/s/a.jsonl", Some((1, 1))), file("/s/b.jsonl", Some((1, 1)))];
    let (stats, _) = collect(&mut cache, day(), &found, &contents);
    let fresh = aggregate_cached_stats(&cache, day(), day().month_of());
    assert_eq!(fresh.total, stats.total);
    assert_eq!(fresh.today, stats.today);
    assert_eq!(fresh.by_model.entries, stats.by_model.entries);
    assert_eq!(fresh.latest_rate_at, stats.latest_rate_at);
    let turned = vec![file("/s/b.jsonl", Some((1, 1))), file("/s/a.jsonl", Some((1, 1)))];
    let turned_contents = [contents[1].clone(), contents[0].clone()];
    let (other, _) = collect(&mut StatsCache::new(), day(), &turned, &turned_contents);
    assert_eq!(other.total, stats.total);
    assert_eq!(other.rate_limits.unwrap().plan_type, "a");
}

#[test]
fn paths_may_be_any_bytes() {
    let mut cache = StatsCache::new();
    let found = vec![
        FoundFile { path: vec![0xff, 0xfe], key: Some((1, 1)) },
        FoundFile { path: vec![0xff, 0xff], key: Some((1, 1)) },
        FoundFile { path: vec![0xff, 0xfe], key: Some((1, 1)) },
    ];
    let contents = [
        Some(content("2025-07-09T12:00:00Z", 1, "a", 5)),
        Some(content("2025-07-09T12:00:00Z", 2, "a", 5)),
        None,
    ];
    let (stats, read) = collect(&mut cache, day(), &found, &contents);
    assert_eq!(read, vec![0, 1]);
    assert_eq!(stats.total.total_tokens, 3);
}

fn no_reply() -> Result<RateLimits, String> {
    Err("down".to_string())
}

#[test]
fn current_local_limits_stand_in() {
    let now = chrono::Utc::now().timestamp();
    let contents = [Some(content("2025-07-09T12:00:00Z", 1, "local", now + 3600))];
    let found = vec![file("/s/a.jsonl", Some((1, 1)))];
    let mut cache = StatsCache::new();
    let stats = collect_stats(
        &mut cache,
        day(),
        &found,
        &|i: usize| contents[i].clone(),
        &same,
        no_reply(),
        true,
    );
    assert_eq!(stats.status_source, StatusSource::LocalSessionJsonl);
    assert_eq!(stats.rate_limits.as_ref().unwrap().plan_type, "local");
    assert_eq!(stats.auth_status, "ChatGPT/Codex auth configured");
    assert_eq!(stats.status_error.as_deref(), Some("down"));
    assert_eq!(stats.total.total_tokens, 1);
}

#[test]
fn expired_local_limits_are_not_collected() {
    let contents = [Some(content("2025-07-09T12:00:00Z", 1, "local", 5))];
    let found = vec![file("/s/a.jsonl", Some((1, 1)))];
    let mut cache = StatsCache::new();
    let stats = collect_stats(
        &mut cache,
        day(),
        &found,
        &|i: usize| contents[i].clone(),
        &same,
        no_reply(),
        false,
    );
    assert_eq!(stats.status_source, StatusSource::Unavailable);
    assert!(stats.rate_limits.is_none());
    assert_eq!(stats.auth_status, "Auth not found (run: codex login)");
    assert!(cache.last_stats.unwrap().rate_limits.is_some());
}

#[test]
fn live_limits_replace_local_ones() {
    let contents = [Some(content("2025-07-09T12:00:00Z", 1, "local", i64::MAX))];
    let found = vec![file("/s/a.jsonl", Some((1, 1)))];
    let live = RateLimits {
        plan_type: "live".into(),
        primary: WindowLimit {
            used_percent: Double { bits: 7.0f64.to_bits() },
            resets_at: Some(1),
            window_duration_mins: None,
        },
        secondary: WindowLimit::default(),
    };
    let stats = collect_stats(
        &mut StatsCache::new(),
        day(),
        &found,
        &|i: usize| contents[i].clone(),
        &same,
        Ok(live),
        true,
    );
    assert_eq!(stats.status_source, StatusSource::LiveAppServer);
    assert_eq!(stats.rate_limits.unwrap().plan_type, "live");
    assert!(stats.status_error.is_none());
}

#[test]
fn a_status_changes_no_counts() {
    let mut stats = Stats::new();
    stats.files_seen = 3;
    apply_status(&mut stats, CodexStatus::default());
    assert_eq!(stats.files_seen, 3);
    assert_eq!(stats.status_source, StatusSource::Unavailable);
    let twin = stats.duplicate();
    assert_eq!(twin.files_seen, 3);
    assert_eq!(Stats::default().files_seen, 0);
}

#[test]
fn a_new_cache_remembers_nothing() {
    for cache in [StatsCache::new(), StatsCache::default()] {
        assert!(cache.files.is_empty());
        assert!(cache.last_stats.is_none());
        assert_eq!(cache.last_day, None);
        assert_eq!(cache.last_month, None);
    }
}

#[test]
fn the_collected_status_follows_from_the_clock() {
    let contents = [Some(content("2025-07-09T12:00:00Z", 1, "local", 1000))];
    let found = vec![file("/s/a.jsonl", Some((1, 1)))];
    for (first, checked_at, source) in [
        (998, 999, StatusSource::LocalSessionJsonl),
        (999, 1000, StatusSource::Unavailable),
        (1000, 999, StatusSource::Unavailable),
    ] {
        let stats = collect_stats_at(
            &mut StatsCache::new(),
            day(),
            &found,
            &|i: usize| contents[i].clone(),
            &same,
            no_reply(),
            true,
            CollectClock { first, checked_at, fetched_at: 1234 },
        );
        assert_eq!(stats.status_source, source);
        assert_eq!(stats.rate_limits.is_some(), source == StatusSource::LocalSessionJsonl);
        assert_eq!(stats.status_fetched_at, Some(1234));
        assert_eq!(stats.total.total_tokens, 1);
    }
}
