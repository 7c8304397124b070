use codex_usage_tray::clock::{Month, TimePoint};
use codex_usage_tray::details::{
    make_details_html, make_details_html_at, make_details_text, make_details_text_at,
    write_details_html, write_details_text, DetailsWords, ModelWords,
};
use codex_usage_tray::double::Double;
use codex_usage_tray::limits::{Pace, RateLimits, WindowLimit};
use codex_usage_tray::money::Money;
use codex_usage_tray::render::{LocalOffsets, RateWords, ShownTimes};
use codex_usage_tray::stats::Stats;
use codex_usage_tray::usage::Usage;

fn double(x: f64) -> Double {
    Double { bits: x.to_bits() }
}

fn money(x: f64) -> Option<Money> {
    Some(Money {
        amount: double(x),
        rounded: x.round() as i64,
        one_decimal: format!("{x:.1}"),
        two_decimals: format!("{x:.2}"),
    })
}

fn limits(resets_at: i64) -> RateLimits {
    RateLimits {
        plan_type: "a<b".into(),
        primary: WindowLimit {
            used_percent: double(23.0),
            resets_at: Some(resets_at),
            window_duration_mins: Some(300),
        },
        secondary: WindowLimit::default(),
    }
}

fn stats() -> Stats {
    let mut stats = Stats::new();
    stats.auth_status = "auth".into();
    stats.events_seen = 12;
    stats.files_seen = 3;
    let small = Usage {
        input_tokens: 900,
        cached_input_tokens: 100,
        output_tokens: 50,
        reasoning_output_tokens: 7,
        total_tokens: 1000,
    };
    let large = Usage {
        input_tokens: 2_000_000,
        cached_input_tokens: 1_000,
        output_tokens: 500,
        reasoning_output_tokens: 0,
        total_tokens: 2_500_000,
    };
    stats.by_model.add(&"small".to_string(), &small);
    stats.by_model.add(&"lar<ge".to_string(), &large);
    stats.total = small;
    stats.total.merge(&large);
    stats.today = small;
    stats.month = large;
    stats
}

fn words() -> DetailsWords {
    let model = |cost: Option<Money>, total: &str, input: &str| ModelWords {
        cost,
        total: total.into(),
        input: input.into(),
        cached: "".into(),
        output: "".into(),
        reasoning: "".into(),
    };
    DetailsWords {
        rate: RateWords {
            primary_percent: "23".into(),
            secondary_percent: "0".into(),
            pace: Some(Pace {
                ahead_percent: double(-2.0),
                difference: "2.0".into(),
                expected: "25.0".into(),
            }),
        },
        primary_bar: "23.0000".into(),
        secondary_bar: "0.0000".into(),
        today_cost: money(1.5),
        month_cost: money(250.25),
        total_cost: None,
        models: vec![model(money(2000.0), "2.5", "2.0"), model(None, "", "")],
        priced: vec![false, true],
        party_mode: false,
        refresh_interval: "30s".into(),
    }
}

fn times() -> ShownTimes {
    ShownTimes {
        primary_reset: "2h 5m".into(),
        primary_clock: "13:37".into(),
        secondary_reset: "n/a".into(),
        secondary_clock: "n/a".into(),
        fetched: "2025-07-09 12:00:00".into(),
    }
}

#[test]
fn the_text_holds_everything() {
    let text = write_details_text(&stats(), &Some(limits(5)), &times(), &words());
    let expected = "Codex Status\n\nPlan: a<b\nAuth: auth\nStatus source: none\nLast update: 2025-07-09 12:00:00\nParty mode: off\nRefresh interval: 30s\n\n\
Rate limits (Codex/ChatGPT account)\n5h: 23% used | reset in 2h 5m at 13:37\nlim: 0% used | reset in n/a at n/a\nPace: slow by 2.0% | expected 25.0%\n\n\
Local Codex session tokens (not OpenCode)\nToday: 1,000 tokens | $1.50\nThis month: 2,500,000 tokens | $250.2\nAll-time: 2,501,000 tokens | n/a\n\n\
Token breakdown\nAll-time input: 2,000,900\nAll-time cached input: 1,100\nAll-time output: 550\nAll-time reasoning: 7\nSkipped with no public API price: 1,000\n\n\
Models\nlar<ge: 2,500,000 tokens | input 2,000,000 | cached 1,000 | output 500 | reasoning 0 | cost $2,000\nsmall: 1,000 tokens | input 900 | cached 100 | output 50 | reasoning 7 | cost n/a\n\n\
JSONL events: 12 from 3 files\n";
    assert_eq!(text, expected);
}

#[test]
fn the_text_says_when_nothing_is_known() {
    let mut w = words();
    w.party_mode = true;
    let text = write_details_text(&stats(), &None, &times(), &w);
    assert!(text.contains("Plan: n/a\n"));
    assert!(text.contains("Party mode: on\n"));
    assert!(text.contains(
        "\n\nRate limits\nCodex status unavailable (no recent account snapshot)\n\nLocal"
    ));
    assert!(!text.contains("Pace"));
}

#[test]
fn the_page_holds_everything() {
    let html = write_details_html(&stats(), &Some(limits(5)), &times(), "Jul 1 - Jul 31, 2025", &words());
    assert!(html.starts_with("<!doctype html>\n<html lang=\"en\">\n<head>"));
    assert!(html.ends_with("</main>\n</body>\n</html>"));
    assert!(html.contains("  --bg: #090d12;\n"));
    assert!(html.contains("<div class=\"plan\">a&lt;b</div>"));
    assert!(html.contains("span-6\" style=\"--dot:5h\">"));
    assert!(html.contains("span-6\" style=\"--dot:n/a\">"));
    assert_eq!(html.matches("<span>#35c46a rate limit</span>").count(), 2);
    assert!(html.contains("<div class=\"metric\">23%</div>"));
    assert!(html.contains("--value:23.0000%"));
    assert!(html.contains("Resets in <strong class=\"muted\">2h 5m</strong>"));
    assert!(html.contains("At <strong class=\"muted\">13:37</strong>"));
    assert!(html.contains("<div class=\"metric\">slow by 2.0%</div>"));
    assert!(html.contains(
        "Expected <strong class=\"muted\">25.0%</strong> of the 5h window by now."
    ));
    assert!(html.contains("<div class=\"metric\">Off</div>"));
    assert!(html.contains("<div class=\"plan\">Notifications only</div>"));
    assert!(html.contains("<div class=\"metric\">30s</div>"));
    assert!(html.contains(
        "<div class=\"label\">Today's cost</div>\n      <div class=\"metric\">$1.50</div>\n      <div class=\"small\">1,000 tokens</div>\n    </article>"
    ));
    assert!(html.contains(
        "<div class=\"small\">2,500,000 tokens</div>\n      <div class=\"small\">Jul 1 - Jul 31, 2025</div>\n    </article>"
    ));
    assert!(html.contains("<span>Unpriced</span><strong>1,000</strong>"));
    assert!(html.contains(
        "<tbody><tr><td><span class=\"model-name\">lar&lt;ge</span></td><td title=\"2,500,000\">2.5M</td><td title=\"2,000,000\">2.0M</td><td title=\"1,000\">1,000</td><td title=\"500\">500</td><td title=\"0\">0</td><td class=\"cost\">$2,000</td></tr><tr><td><span class=\"model-name\">small</span></td>"
    ));
    assert!(html.contains("Source: 12 token_count events from 3 JSONL files"));
}

#[test]
fn the_page_says_when_nothing_is_known() {
    let html = write_details_html(&stats(), &None, &times(), "x & y", &words());
    assert!(html.contains("<div class=\"plan\"></div>\n  </header>"));
    assert_eq!(html.matches("style=\"--dot:n/a\">").count(), 2);
    assert_eq!(html.matches("<span>#35c46a rate limit</span>").count(), 2);
    assert_eq!(html.matches("<div class=\"metric\">0%</div>").count(), 2);
    assert_eq!(html.matches("--value:0.0000%\"></div></div>").count(), 2);
    assert!(html.contains("style=\"--dot:#627284\">"));
    assert!(html.contains("<strong class=\"muted\">0.0%</strong> of the Limit window"));
    assert!(html.contains("<div class=\"small\">x &amp; y</div>"));
}

#[test]
fn expired_limits_are_not_shown_as_zero() {
    let no_usage = "<div class=\"metric\">n/a</div>\n      </div>\n      <div class=\"rate-meta\">";
    let mut expired = stats();
    expired.rate_limits = Some(limits(5));
    let mut dropped = stats();
    dropped.latest_rate_at = Some(TimePoint { secs: 4, nanos: 0 });
    for s in [expired, dropped] {
        let html = write_details_html(&s, &None, &times(), "x", &words());
        assert_eq!(html.matches(no_usage).count(), 2);
        assert!(!html.contains("--value:"));
        assert!(!html.contains(">0%<"));
    }
}

#[test]
fn expired_limits_are_left_out_of_the_details() {
    let now = chrono::Utc::now().timestamp();
    let mut s = stats();
    s.rate_limits = Some(limits(now - 1));
    assert!(make_details_text(&s, &words()).contains("Codex status unavailable"));
    assert!(make_details_html(&s, &words()).contains("<div class=\"plan\"></div>\n  </header>"));
    s.rate_limits = Some(limits(now + 9999));
    assert!(make_details_text(&s, &words()).contains("5h: 23% used | reset in 2h "));
    assert!(make_details_html(&s, &words()).contains("<div class=\"metric\">23%</div>"));
}

#[test]
fn the_details_of_nothing_are_written() {
    let mut w = words();
    w.models = Vec::new();
    w.priced = Vec::new();
    let text = make_details_text(&Stats::new(), &w);
    assert!(text.contains("\n\nModels\n\n\nJSONL events: 0 from 0 files\n"));
}

#[test]
fn the_details_follow_from_the_clock_and_the_zone() {
    let mut s = stats();
    s.rate_limits = Some(limits(1_752_055_200));
    s.status_fetched_at = Some(0);
    let now = TimePoint { secs: 1_752_055_199, nanos: 0 };
    let offsets = LocalOffsets { primary: 0, secondary: 0, fetched: -1 };
    let text = make_details_text_at(&s, &words(), now, offsets);
    assert!(text.contains("Last update: 1969-12-31 23:59:59\n"));
    assert!(text.contains("5h: 23% used | reset in 0m at 10:00\n"));
    let july = Month { year: 2025, month: 7 };
    let html = make_details_html_at(&s, &words(), now, offsets, july);
    assert!(html.contains("At <strong class=\"muted\">10:00</strong>"));
    assert!(html.contains("<div class=\"small\">Jul 1 - Jul 31, 2025</div>"));
    let late = TimePoint { secs: 1_752_055_200, nanos: 0 };
    assert!(make_details_text_at(&s, &words(), late, offsets).contains("status unavailable"));
    assert!(!make_details_html_at(&s, &words(), late, offsets, july).contains("--value:"));
}
