use codex_usage_tray::double::Double;
use codex_usage_tray::limits::{Pace, RateLimits, WindowLimit};
use codex_usage_tray::mascot::MascotRuntime;
use codex_usage_tray::clock::TimePoint;
use codex_usage_tray::money::Money;
use codex_usage_tray::render::{
    current_limits, current_limits_at, icon_name, label_svg, make_render_snapshot,
    make_render_snapshot_at, primary_percent, render_snapshot, LocalOffsets, RateWords,
    RenderSnapshot, SettingsMarkup, ShownTimes, TrayState, WindowNews,
};
use codex_usage_tray::stats::Stats;
use codex_usage_tray::status::StatusSource;

fn double(x: f64) -> Double {
    Double { bits: x.to_bits() }
}

fn window(used: f64, resets_at: Option<i64>, mins: i64) -> WindowLimit {
    WindowLimit { used_percent: double(used), resets_at, window_duration_mins: Some(mins) }
}

fn limits(primary: Option<i64>, secondary: Option<i64>) -> RateLimits {
    RateLimits {
        plan_type: "prolite".into(),
        primary: window(23.0, primary, 300),
        secondary: window(67.0, secondary, 10080),
    }
}

fn words() -> RateWords {
    RateWords {
        primary_percent: "23".into(),
        secondary_percent: "67".into(),
        pace: Some(Pace {
            ahead_percent: double(3.0),
            difference: "3.0".into(),
            expected: "20.0".into(),
        }),
    }
}

fn times() -> ShownTimes {
    ShownTimes {
        primary_reset: "2h 5m".into(),
        primary_clock: "13:37".into(),
        secondary_reset: "3d 2h".into(),
        secondary_clock: "07:00".into(),
        fetched: "2025-07-09 12:00:00".into(),
    }
}

fn settings() -> SettingsMarkup {
    SettingsMarkup {
        party_mode: "party".into(),
        mascot: "mascot".into(),
        refresh_interval: "refresh".into(),
    }
}

fn cost(x: f64) -> Option<Money> {
    Some(Money {
        amount: double(x),
        rounded: x.round() as i64,
        one_decimal: format!("{x:.1}"),
        two_decimals: format!("{x:.2}"),
    })
}

fn render(limits: Option<RateLimits>) -> RenderSnapshot {
    render_snapshot(
        &limits,
        &times(),
        &words(),
        &cost(1.5),
        "auth",
        StatusSource::LiveAppServer,
        &settings(),
    )
}

#[test]
fn both_windows_are_shown() {
    let s = render(Some(limits(Some(1), Some(2))));
    assert_eq!(
        s.primary_header_markup,
        "<b>5h limit</b>  |  reset in 2h 5m (13:37)"
    );
    assert_eq!(
        s.limit_markup,
        "▰▰▱▱▱▱▱▱▱▱  <b><span color='#35c46a'>23%</span> used</b>"
    );
    assert_eq!(
        s.weekly_header_markup,
        "<b>Weekly limit</b>  |  reset in 3d 2h (07:00)"
    );
    assert_eq!(
        s.weekly_markup,
        "▰▰▰▰▰▰▰▱▱▱  <b><span color='#e5b454'>67%</span> used</b>"
    );
    assert_eq!(s.pace_markup, "<b>Pace:</b>  3.0% ↑ faster than expected");
    assert_eq!(s.plan_markup, "<b>Plan:</b>  $100 Pro (Pro Lite)");
    assert_eq!(s.auth_markup, "<b>Auth:</b>  auth");
    assert_eq!(s.updated_markup, "<b>Updated:</b>  2025-07-09 12:00:00");
    assert_eq!(
        s.source_markup,
        "<b>Source:</b>  codex app-server account/rateLimits/read"
    );
    assert_eq!(s.party_mode_markup, "party");
    assert_eq!(s.mascot_markup, "mascot");
    assert_eq!(s.refresh_interval_markup, "refresh");
    assert_eq!(s.tray_label, "5h 23% | W 67% | $1.50");
    assert_eq!(s.svg_label, "5h 23% | W 67% | $1.50");
    assert_eq!(s.title, "Codex | 5h 23% | W 67% | $1.50 | $100 Pro (Pro Lite)");
}

#[test]
fn one_window_is_shown_alone() {
    let s = render(Some(limits(Some(1), None)));
    assert_eq!(s.tray_label, "5h 23% | $1.50");
    assert_eq!(s.weekly_header_markup, "<b>limit unavailable</b>");
    assert_eq!(s.weekly_markup, "no recent Codex/ChatGPT status");
    let s = render(Some(limits(None, Some(1))));
    assert_eq!(s.tray_label, "W 67% | $1.50");
    assert_eq!(s.pace_markup, "<b>Pace:</b>  n/a");
    assert_eq!(s.title, "Codex | W 67% | $1.50 | $100 Pro (Pro Lite)");
}

#[test]
fn nothing_is_made_up() {
    let s = render(None);
    assert_eq!(s.tray_label, "Codex status unavailable");
    assert_eq!(s.title, "Codex status unavailable — open Codex CLI or check auth");
    assert_eq!(s.primary_header_markup, "<b>limit unavailable</b>");
    assert_eq!(s.limit_markup, "no recent Codex/ChatGPT status");
    assert_eq!(s.plan_markup, "<b>Plan:</b>  n/a");
    assert!(!s.limit_markup.contains('%'));
}

#[test]
fn expired_limits_are_not_rendered() {
    let mut stats = Stats::new();
    let now = chrono::Utc::now().timestamp();
    stats.rate_limits = Some(limits(Some(now - 1), Some(now + 9999)));
    let s = make_render_snapshot(&stats, &words(), &cost(1.5), &settings());
    assert_eq!(s.tray_label, "Codex status unavailable");
    stats.rate_limits = Some(limits(Some(now + 2 * 3600 + 1800), Some(now + 99_999)));
    let s = make_render_snapshot(&stats, &words(), &cost(1.5), &settings());
    assert_eq!(s.tray_label, "5h 23% | W 67% | $1.50");
    assert!(s.primary_header_markup.starts_with("<b>5h limit</b>  |  reset in 2h "));
    assert_eq!(s.updated_markup, "<b>Updated:</b>  n/a");
    assert_eq!(s.source_markup, "<b>Source:</b>  none");
}

#[test]
fn only_news_is_drawn() {
    let mut state = TrayState::new();
    let first = render(None);
    assert!(state.is_news(&first));
    state.remember(render(None));
    assert!(!state.is_news(&first));
    assert!(state.is_news(&render(Some(limits(Some(1), None)))));
    let mut other = render(None);
    other.title.push('!');
    assert!(state.is_news(&other));
}

#[test]
fn refreshes_wait_unless_forced() {
    let mut state = TrayState::new();
    assert!(state.refresh_due_at(false, 1000, 30));
    assert!(!state.refresh_due_at(false, 1029, 30));
    assert_eq!(state.last_refresh_at, Some(1000));
    assert!(state.refresh_due_at(true, 1029, 30));
    assert_eq!(state.last_refresh_at, Some(1029));
    assert!(!state.refresh_due_at(false, 1030, 30));
    assert!(state.refresh_due_at(false, 1059, 30));
}

#[test]
fn refreshes_follow_the_clock() {
    let mut state = TrayState::new();
    assert!(state.refresh_due(false, 3600));
    assert!(!state.refresh_due(false, 3600));
    assert!(state.refresh_due(true, 3600));
    let now = chrono::Utc::now().timestamp();
    assert!((state.last_refresh_at.unwrap() - now).abs() <= 5);
}

#[test]
fn the_label_ends_with_the_cost() {
    let mut stats = Stats::new();
    let now = chrono::Utc::now().timestamp();
    stats.rate_limits = Some(RateLimits {
        plan_type: "plus".into(),
        primary: window(1.0, Some(now + 3600), 300),
        secondary: WindowLimit::default(),
    });
    let mut w = words();
    w.primary_percent = "1".into();
    let s = make_render_snapshot(&stats, &w, &cost(0.0), &settings());
    assert_eq!(s.tray_label, "5h 1% | $0.00");
    assert_eq!(s.title, "Codex | 5h 1% | $0.00 | plus");
    let s = make_render_snapshot(&stats, &w, &None, &settings());
    assert_eq!(s.tray_label, "5h 1% | n/a");
}

#[test]
fn a_snapshot_follows_from_the_clock_and_the_zone() {
    let mut stats = Stats::new();
    stats.rate_limits = Some(limits(Some(1_752_055_200), Some(1_752_400_000)));
    stats.status_fetched_at = Some(1_752_048_000);
    let now = TimePoint { secs: 1_752_048_000, nanos: 0 };
    let offsets = LocalOffsets { primary: 7200, secondary: -3600, fetched: 19_800 };
    let s = make_render_snapshot_at(&stats, &words(), &None, &settings(), now, offsets);
    assert_eq!(s.primary_header_markup, "<b>5h limit</b>  |  reset in 2h 0m (12:00)");
    assert_eq!(s.weekly_header_markup, "<b>Weekly limit</b>  |  reset in 4d 1h (08:46)");
    assert_eq!(s.updated_markup, "<b>Updated:</b>  2025-07-09 13:30:00");
    let late = TimePoint { secs: 1_752_055_200, nanos: 0 };
    let s = make_render_snapshot_at(&stats, &words(), &None, &settings(), late, offsets);
    assert_eq!(s.tray_label, "Codex status unavailable");
    assert!(current_limits_at(&stats, 1_752_055_199).is_some());
    assert!(current_limits_at(&stats, 1_752_055_200).is_none());
    assert!(current_limits(&stats).is_none());
}

#[test]
fn windows_are_noted() {
    let none = WindowNews { primary_reset: false, fast_pace: false, secondary_reset: false };
    let mut state = TrayState::new();
    assert_eq!(state.note_windows(&Some(limits(Some(1), Some(2))), &None), none);
    assert_eq!(state.note_windows(&None, &words().pace), none);
    let fast = Some(Pace {
        ahead_percent: double(12.0),
        difference: "12.0".into(),
        expected: "5.0".into(),
    });
    assert_eq!(
        state.note_windows(&Some(limits(Some(20_001), Some(604_802))), &fast),
        WindowNews { primary_reset: true, fast_pace: true, secondary_reset: true }
    );
    assert_eq!(state.windows.last_primary_resets_at, Some(20_001));
    assert_eq!(state.windows.last_secondary_resets_at, Some(604_802));
    assert_eq!(state.windows.pace_alert_window, Some(20_001));
    assert_eq!(state.note_windows(&Some(limits(Some(20_001), Some(604_802))), &fast), none);
}

#[test]
fn the_primary_percentage_is_zero_when_unknown() {
    let mut stats = Stats::new();
    assert_eq!(primary_percent(&stats), double(0.0));
    stats.rate_limits = Some(limits(None, None));
    assert_eq!(primary_percent(&stats), double(23.0));
}

#[test]
fn icons_are_named_and_drawn() {
    assert_eq!(icon_name(&None), "StatusBar-Codex-Linux");
    assert_eq!(
        icon_name(&Some(MascotRuntime::new(3))),
        "StatusBar-Codex-Linux-Idle-0"
    );
    let svg = label_svg("5h <1%");
    assert!(svg.starts_with("<svg xmlns=\"http://www.w3.org/2000/svg\" width=\"200\" height=\"28\""));
    assert!(svg.ends_with("fill=\"#ffffff\">5h &lt;1%</text>\n</svg>"));
}
