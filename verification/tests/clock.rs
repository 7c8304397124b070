use chrono::{Datelike, Local, TimeZone, Utc};
use codex_usage_tray::clock::{
    current_month_range_text, fetched_at_text, fetched_at_text_at, month_range_text, offset_at,
    parse_timestamp, reset_clock_text, reset_clock_text_at, reset_text, reset_text_at, today, Day,
    Month, TimePoint,
};

fn at(secs: i64, nanos: u32) -> TimePoint {
    TimePoint { secs, nanos }
}

#[test]
fn time_left_is_worded() {
    for (reset, text) in [
        (1000, "now"),
        (999, "now"),
        (1001, "0m"),
        (1059, "0m"),
        (1060, "1m"),
        (4599, "59m"),
        (4600, "1h 0m"),
        (87399, "23h 59m"),
        (87400, "1d 0h"),
        (1000 + 3 * 86400 + 7200 + 59, "3d 2h"),
    ] {
        assert_eq!(reset_text_at(Some(reset), at(1000, 0)), text);
    }
    assert_eq!(reset_text_at(None, at(1000, 0)), "n/a");
    assert_eq!(reset_text_at(Some(i64::MAX), at(1000, 0)), "n/a");
    assert_eq!(reset_text_at(Some(i64::MIN), at(1000, 0)), "n/a");
}

#[test]
fn started_seconds_do_not_count() {
    assert_eq!(reset_text_at(Some(1060), at(1000, 1)), "0m");
    assert_eq!(reset_text_at(Some(1001), at(1000, 999_999_999)), "now");
    for nanos in [0u32, 1, 999_999_999] {
        for reset in [990i64, 1000, 1001, 1030, 1090] {
            let now = Utc.timestamp_opt(1000, nanos).unwrap();
            let then = Utc.timestamp_opt(reset, 0).unwrap();
            let seconds = then.signed_duration_since(now).num_seconds();
            let expected = if seconds <= 0 {
                "now".to_string()
            } else {
                format!("{}m", seconds / 60)
            };
            assert_eq!(reset_text_at(Some(reset), at(1000, nanos)), expected);
        }
    }
}

#[test]
fn time_left_is_read_from_the_clock() {
    let now = Utc::now().timestamp();
    assert_eq!(reset_text(Some(now - 5)), "now");
    assert_eq!(reset_text(Some(now + 2 * 86400 + 7200 + 1800)), "2d 2h");
    assert_eq!(reset_text(None), "n/a");
}

#[test]
fn clock_and_moment_are_local() {
    let secs = 1783614415;
    let local = Local.timestamp_opt(secs, 0).unwrap();
    assert_eq!(reset_clock_text(Some(secs)), local.format("%H:%M").to_string());
    assert_eq!(
        fetched_at_text(Some(secs)),
        local.format("%Y-%m-%d %H:%M:%S").to_string()
    );
    assert_eq!(reset_clock_text(None), "n/a");
    assert_eq!(fetched_at_text(None), "n/a");
    assert_eq!(reset_clock_text(Some(i64::MAX)), "n/a");
    assert_eq!(fetched_at_text(Some(i64::MIN)), "n/a");
}

#[test]
fn the_ends_of_the_calendar_are_shown() {
    for secs in [8210266876799, -8334601228800] {
        assert_ne!(fetched_at_text(Some(secs)), "n/a");
        assert_ne!(reset_clock_text(Some(secs)), "n/a");
    }
    assert_eq!(fetched_at_text(Some(8210266876800)), "n/a");
    assert_eq!(fetched_at_text(Some(-8334601228801)), "n/a");
}

#[test]
fn months_are_ranges() {
    for (year, month, text) in [
        (2025, 1, "Jan 1 - Jan 31, 2025"),
        (2024, 2, "Feb 1 - Feb 29, 2024"),
        (2025, 2, "Feb 1 - Feb 28, 2025"),
        (2000, 2, "Feb 1 - Feb 29, 2000"),
        (1900, 2, "Feb 1 - Feb 28, 1900"),
        (2025, 12, "Dec 1 - Dec 31, 2025"),
        (2025, 4, "Apr 1 - Apr 30, 2025"),
        (-5, 6, "Jun 1 - Jun 30, -0005"),
        (12345, 7, "Jul 1 - Jul 31, +12345"),
    ] {
        assert_eq!(month_range_text(Month { year, month }), text);
    }
    for (year, month) in [(2025, 0), (2025, 13), (262143, 1), (262142, 12), (-262144, 1)] {
        assert_eq!(month_range_text(Month { year, month }), "Current month");
    }
}

#[test]
fn the_current_month_is_local() {
    let before = Local::now();
    let text = current_month_range_text();
    let after = Local::now();
    let of = |d: chrono::DateTime<Local>| month_range_text(Month { year: d.year(), month: d.month() });
    assert!(text == of(before) || text == of(after));
    let day = today();
    assert!(
        day == Day { year: before.year(), month: before.month(), day: before.day() }
            || day == Day { year: after.year(), month: after.month(), day: after.day() }
    );
}

#[test]
fn timestamps_are_read() {
    let stamp = parse_timestamp("2025-07-09T12:00:00.250+02:00").unwrap();
    assert_eq!(stamp.at, at(1752055200, 250_000_000));
    let local = Local.timestamp_opt(1752055200, 0).unwrap();
    assert_eq!(
        stamp.day,
        Day { year: local.year(), month: local.month(), day: local.day() }
    );
    assert!(parse_timestamp("2025-07-09").is_none());
    assert!(parse_timestamp("").is_none());
}

#[test]
fn moments_are_ordered() {
    assert!(at(2, 0).is_after(&at(1, 999)));
    assert!(at(1, 5).is_after(&at(1, 4)));
    assert!(!at(1, 4).is_after(&at(1, 4)));
    assert!(!at(0, 9).is_after(&at(1, 0)));
}

#[test]
fn seconds_are_shown_under_an_offset() {
    assert_eq!(fetched_at_text_at(Some(0), 0), "1970-01-01 00:00:00");
    assert_eq!(fetched_at_text_at(Some(0), -1), "1969-12-31 23:59:59");
    assert_eq!(fetched_at_text_at(Some(951_782_400), 3661), "2000-02-29 01:01:01");
    assert_eq!(fetched_at_text_at(Some(-62_198_755_200), 0), "-0001-01-01 00:00:00");
    assert_eq!(fetched_at_text_at(Some(8_210_266_876_799), 1), "+262143-01-01 00:00:00");
    assert_eq!(fetched_at_text_at(Some(-8_334_601_228_800), -1), "-262144-12-31 23:59:59");
    assert_eq!(fetched_at_text_at(Some(8_210_266_876_800), -1), "n/a");
    assert_eq!(fetched_at_text_at(None, 0), "n/a");
    assert_eq!(reset_clock_text_at(Some(0), 86_399), "23:59");
    assert_eq!(reset_clock_text_at(Some(59), 0), "00:00");
    assert_eq!(reset_clock_text_at(Some(60), -86_399), "00:01");
    assert_eq!(reset_clock_text_at(None, 0), "n/a");
}

#[test]
fn the_offset_is_that_of_the_machine() {
    let secs = 1783614415;
    let expected = Local.timestamp_opt(secs, 0).unwrap().offset().local_minus_utc();
    assert_eq!(offset_at(Some(secs)), expected);
    assert_eq!(offset_at(None), 0);
    assert_eq!(offset_at(Some(i64::MAX)), 0);
    assert_eq!(fetched_at_text(Some(secs)), fetched_at_text_at(Some(secs), expected));
}
