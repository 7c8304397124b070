use codex_usage_tray::double::Double;
use codex_usage_tray::limits::{Pace, RateLimits, WindowLimit};
use codex_usage_tray::notify::{
    maybe_notify_fast_pace, maybe_notify_primary_reset, maybe_notify_secondary_reset, next_rand,
    overlay_markup, party_overlay_allowed, party_overlay_allowed_at, reset_overlay,
    reset_overlay_at, WindowTracker,
};

fn rate(primary: Option<i64>, secondary: Option<i64>) -> RateLimits {
    RateLimits {
        plan_type: "plus".into(),
        primary: WindowLimit { resets_at: primary, ..Default::default() },
        secondary: WindowLimit { resets_at: secondary, ..Default::default() },
    }
}

#[test]
fn only_a_real_jump_is_a_new_window() {
    let mut tracker = WindowTracker::new();
    assert!(!maybe_notify_primary_reset(&mut tracker, &rate(Some(100_000), None)));
    assert!(!maybe_notify_primary_reset(&mut tracker, &rate(Some(100_007), None)));
    assert!(!maybe_notify_primary_reset(&mut tracker, &rate(Some(100_000), None)));
    assert!(!maybe_notify_primary_reset(&mut tracker, &rate(Some(116_199), None)));
    assert!(!maybe_notify_primary_reset(&mut tracker, &rate(Some(100_000), None)));
    assert!(maybe_notify_primary_reset(&mut tracker, &rate(Some(116_200), None)));
    assert_eq!(tracker.last_primary_reset_notified_at, Some(116_200));
    assert!(!maybe_notify_primary_reset(&mut tracker, &rate(Some(116_200), None)));
}

#[test]
fn a_window_is_new_only_once() {
    let mut tracker = WindowTracker::new();
    maybe_notify_primary_reset(&mut tracker, &rate(Some(0), None));
    assert!(maybe_notify_primary_reset(&mut tracker, &rate(Some(20_000), None)));
    assert!(!maybe_notify_primary_reset(&mut tracker, &rate(Some(10), None)));
    assert!(!maybe_notify_primary_reset(&mut tracker, &rate(Some(20_000), None)));
    assert!(maybe_notify_primary_reset(&mut tracker, &rate(Some(40_000), None)));
}

#[test]
fn an_unknown_window_is_not_new() {
    let mut tracker = WindowTracker::new();
    maybe_notify_primary_reset(&mut tracker, &rate(Some(0), None));
    assert!(!maybe_notify_primary_reset(&mut tracker, &rate(None, None)));
    assert_eq!(tracker.last_primary_resets_at, None);
    assert!(!maybe_notify_primary_reset(&mut tracker, &rate(Some(99_999), None)));
}

#[test]
fn a_weekly_window_starts_anew() {
    let mut tracker = WindowTracker::new();
    let p = 1_000_000;
    assert!(!maybe_notify_secondary_reset(&mut tracker, &rate(None, Some(p))));
    assert!(!maybe_notify_secondary_reset(&mut tracker, &rate(None, Some(p + 602_999))));
    assert!(!maybe_notify_secondary_reset(&mut tracker, &rate(None, Some(p))));
    assert!(maybe_notify_secondary_reset(&mut tracker, &rate(None, Some(p + 604_800))));
    assert_eq!(tracker.last_secondary_resets_at, Some(p + 604_800));
    assert!(!maybe_notify_secondary_reset(&mut tracker, &rate(None, Some(p + 604_800))));
    assert!(!maybe_notify_secondary_reset(&mut tracker, &rate(None, Some(p))));
    assert!(!maybe_notify_secondary_reset(&mut tracker, &rate(None, Some(p + 604_800))));
    assert!(!tracker.seen_primary_window);
}

fn pace(ahead: f64) -> Option<Pace> {
    Some(Pace {
        ahead_percent: Double { bits: ahead.to_bits() },
        difference: String::new(),
        expected: String::new(),
    })
}

#[test]
fn a_fast_pace_is_told_once_in_a_window() {
    let mut tracker = WindowTracker::new();
    assert!(!maybe_notify_fast_pace(&mut tracker, &rate(Some(50_000), None), &None));
    assert!(!maybe_notify_fast_pace(&mut tracker, &rate(Some(50_000), None), &pace(9.99)));
    assert!(maybe_notify_fast_pace(&mut tracker, &rate(Some(50_003), None), &pace(10.0)));
    assert_eq!(tracker.pace_alert_window, Some(50_003));
    assert!(tracker.pace_alert_active);
    assert!(!maybe_notify_fast_pace(&mut tracker, &rate(Some(50_010), None), &pace(30.0)));
    assert!(!maybe_notify_fast_pace(&mut tracker, &rate(Some(50_010), None), &pace(0.0)));
    assert!(!maybe_notify_fast_pace(&mut tracker, &rate(Some(50_001), None), &pace(30.0)));
    assert!(!maybe_notify_fast_pace(&mut tracker, &rate(Some(68_001), None), &pace(1.0)));
    assert!(!tracker.pace_alert_active);
    assert!(maybe_notify_fast_pace(&mut tracker, &rate(Some(68_001), None), &pace(11.0)));
    assert!(maybe_notify_fast_pace(&mut tracker, &rate(Some(99_001), None), &pace(11.0)));
}

#[test]
fn an_unknown_window_has_no_pace() {
    let mut tracker = WindowTracker { pace_alert_active: true, ..WindowTracker::new() };
    assert!(!maybe_notify_fast_pace(&mut tracker, &rate(None, None), &pace(50.0)));
    assert!(!tracker.pace_alert_active);
    assert_eq!(tracker.pace_alert_window, None);
}

#[test]
fn overlays_keep_their_distance() {
    let mut last = None;
    let shown: Vec<i64> = (0..2000)
        .filter(|now| party_overlay_allowed_at(&mut last, *now))
        .collect();
    assert_eq!(shown, vec![0, 600, 1200, 1800]);
}

#[test]
fn overlays_follow_the_clock() {
    let mut last = None;
    assert!(party_overlay_allowed(&mut last));
    let now = chrono::Utc::now().timestamp();
    assert!((now - last.unwrap()).abs() <= 5);
    assert!(!party_overlay_allowed(&mut last));
    last = Some(now - 600);
    assert!(party_overlay_allowed(&mut last));
}

#[test]
fn overlays_say_what_happened() {
    assert_eq!(
        overlay_markup("The 5 hour rate limit has been reset! 🎉", false),
        "<span font_desc=\"58\">🎉 🎊 ✨</span>\n<span font_desc=\"20\" weight=\"bold\">The 5 hour rate limit has been reset!</span>"
    );
    assert_eq!(
        overlay_markup("a <b>", false),
        "<span font_desc=\"58\">🎉 🎊 ✨</span>\n<span font_desc=\"20\" weight=\"bold\">a &lt;b&gt;</span>"
    );
    assert_eq!(
        overlay_markup("anything", true),
        "<span font_desc=\"72\">🎉 🎊 🥳 ✨ 🎉</span>\n<span font_desc=\"24\" weight=\"bold\">THE WEEKLY RATE LIMIT HAS BEEN RESET!</span>"
    );
}

#[test]
fn the_sequence_of_numbers_is_fixed() {
    let mut seed = 0xfeed_cafe_u64;
    let expected = 0xfeed_cafe_u64.wrapping_mul(6364136223846793005).wrapping_add(1);
    assert_eq!(next_rand(&mut seed), expected >> 32);
    assert_eq!(seed, expected);
    assert!(next_rand(&mut seed) <= u32::MAX as u64);
}

#[test]
fn overlays_are_for_party_mode() {
    let mut last = None;
    assert!(!reset_overlay_at(false, &mut last, 1000));
    assert_eq!(last, None);
    assert!(reset_overlay_at(true, &mut last, 1000));
    assert_eq!(last, Some(1000));
    assert!(!reset_overlay_at(true, &mut last, 1599));
    assert!(reset_overlay_at(true, &mut last, 1600));
    let mut none = None;
    assert!(!reset_overlay(false, &mut none));
    assert!(reset_overlay(true, &mut none));
    assert!(!reset_overlay(true, &mut none));
}
