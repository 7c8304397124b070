//! When rate-limit windows start anew or are used up too fast, and what is done on the screen then.
use crate::clock::{clock_now, is_second, second_was_read};
use crate::double::one;
use crate::limits::{pace_view, Pace, PaceView, RateLimits};
use crate::text::{
    contains_text, has_part, html_escape, html_escaped, law_a_text_holds_its_parts, occurs_at,
};
use vstd::prelude::*;
use vstd::string::*;

verus! {

/// How much later a primary window must end than the one before for it to count as a new one,
/// in seconds: the length of the window, less half an hour.
pub const NEW_PRIMARY_WINDOW_SECONDS: i64 = 16200;

/// How much later a secondary window must end than the one before for it to count as a new one,
/// in seconds: a week, less half an hour.
pub const NEW_SECONDARY_WINDOW_SECONDS: i64 = 603000;

/// The percentage from which on usage that is ahead of an even pace is too fast.
pub const PACE_ALERT_AHEAD_PERCENT: u32 = 10;

/// How long no second overlay is shown after one, in seconds.
pub const PARTY_OVERLAY_COOLDOWN_SECONDS: i64 = 600;

/// What is said when the primary window starts anew.
pub const PRIMARY_RESET_MESSAGE: &'static str = "The 5 hour rate limit has been reset! 🎉";

/// What is said when the secondary window starts anew.
pub const SECONDARY_RESET_MESSAGE: &'static str = "THE WEEKLY RATE LIMIT HAS BEEN RESET! 🎉🎊🥳✨";

/// What is said when usage is too fast.
pub const FAST_PACE_MESSAGE: &'static str = "Slow down, cowboy! 🤠 You are using up your rate limit FAST. Watch out! 🐬";

/// The rate-limit windows that were seen last.
#[derive(Clone, Copy, Debug, PartialEq, Eq, Structural)]
pub struct WindowTracker {
    pub seen_primary_window: bool,
    pub last_primary_resets_at: Option<i64>,
    /// The end of the last primary window that was found to be a new one.
    pub last_primary_reset_notified_at: Option<i64>,
    /// Whether an alert was raised in the window whose pace was looked at last.
    pub pace_alert_active: bool,
    /// The end of the window whose pace was looked at last.
    pub pace_alert_window: Option<i64>,
    pub seen_secondary_window: bool,
    pub last_secondary_resets_at: Option<i64>,
    /// The end of the last secondary window that was found to be a new one.
    pub last_secondary_reset_notified_at: Option<i64>,
}

impl WindowTracker {
    /// No windows were seen.
    pub fn new() -> (tracker: WindowTracker)
        ensures
            tracker == no_windows(),
    {
        WindowTracker {
            seen_primary_window: false,
            last_primary_resets_at: None,
            last_primary_reset_notified_at: None,
            pace_alert_active: false,
            pace_alert_window: None,
            seen_secondary_window: false,
            last_secondary_resets_at: None,
            last_secondary_reset_notified_at: None,
        }
    }

    /// What is known of the primary window.
    pub open spec fn primary(self) -> SeenWindow {
        SeenWindow {
            seen: self.seen_primary_window,
            last: self.last_primary_resets_at,
            notified: self.last_primary_reset_notified_at,
        }
    }

    /// What is known of the secondary window.
    pub open spec fn secondary(self) -> SeenWindow {
        SeenWindow {
            seen: self.seen_secondary_window,
            last: self.last_secondary_resets_at,
            notified: self.last_secondary_reset_notified_at,
        }
    }
}

/// No windows were seen.
pub open spec fn no_windows() -> WindowTracker {
    WindowTracker {
        seen_primary_window: false,
        last_primary_resets_at: None,
        last_primary_reset_notified_at: None,
        pace_alert_active: false,
        pace_alert_window: None,
        seen_secondary_window: false,
        last_secondary_resets_at: None,
        last_secondary_reset_notified_at: None,
    }
}

/// What is known of a window: whether one was seen, when it ends, and the end of the last one
/// that was found to be new.
pub struct SeenWindow {
    pub seen: bool,
    pub last: Option<i64>,
    pub notified: Option<i64>,
}

/// Whether a window that ends at `current` is a new one: it ends at least `step` later than the
/// one before, and it was not found to be new already. The end that the account service reports
/// drifts a little from one report to the next; that is no new window.
pub open spec fn is_new(window: SeenWindow, current: Option<i64>, step: i64) -> bool {
    window.seen && window.last is Some && current is Some && current->0
        >= window.last->0.wrapping_add(step) && window.notified != current
}

/// What is known after a window that ends at `current`.
pub open spec fn after(window: SeenWindow, current: Option<i64>, step: i64) -> SeenWindow {
    SeenWindow {
        seen: true,
        last: current,
        notified: if is_new(window, current, step) {
            current
        } else {
            window.notified
        },
    }
}

fn starts_anew(
    seen: bool,
    last: Option<i64>,
    notified: Option<i64>,
    current: Option<i64>,
    step: i64,
) -> (r: bool)
    ensures
        r == is_new(SeenWindow { seen, last, notified }, current, step),
{
    match (last, current) {
        (Some(previous), Some(end)) => {
            let already = match notified {
                Some(known) => known == end,
                None => false,
            };
            seen && end >= previous.wrapping_add(step) && !already
        },
        _ => false,
    }
}

/// Whether a primary window that ends at `current` is a new one.
pub open spec fn is_new_primary(tracker: WindowTracker, current: Option<i64>) -> bool {
    is_new(tracker.primary(), current, NEW_PRIMARY_WINDOW_SECONDS)
}

/// The windows seen last, after a primary window that ends at `current`.
pub open spec fn primary_seen(tracker: WindowTracker, current: Option<i64>) -> WindowTracker {
    let window = after(tracker.primary(), current, NEW_PRIMARY_WINDOW_SECONDS);
    WindowTracker {
        seen_primary_window: window.seen,
        last_primary_resets_at: window.last,
        last_primary_reset_notified_at: window.notified,
        ..tracker
    }
}

/// Takes note of the primary window. Returns whether it is a new one, of which the user is told.
pub fn maybe_notify_primary_reset(tracker: &mut WindowTracker, rate: &RateLimits) -> (due: bool)
    ensures
        due == is_new_primary(*old(tracker), rate@.primary.resets_at),
        *final(tracker) == primary_seen(*old(tracker), rate@.primary.resets_at),
{
    let current = rate.primary.resets_at;
    let due = starts_anew(
        tracker.seen_primary_window,
        tracker.last_primary_resets_at,
        tracker.last_primary_reset_notified_at,
        current,
        NEW_PRIMARY_WINDOW_SECONDS,
    );
    if due {
        tracker.last_primary_reset_notified_at = current;
    }
    tracker.seen_primary_window = true;
    tracker.last_primary_resets_at = current;
    due
}

/// Whether a secondary window that ends at `current` is a new one.
pub open spec fn is_new_secondary(tracker: WindowTracker, current: Option<i64>) -> bool {
    is_new(tracker.secondary(), current, NEW_SECONDARY_WINDOW_SECONDS)
}

/// The windows seen last, after a secondary window that ends at `current`.
pub open spec fn secondary_seen(tracker: WindowTracker, current: Option<i64>) -> WindowTracker {
    let window = after(tracker.secondary(), current, NEW_SECONDARY_WINDOW_SECONDS);
    WindowTracker {
        seen_secondary_window: window.seen,
        last_secondary_resets_at: window.last,
        last_secondary_reset_notified_at: window.notified,
        ..tracker
    }
}

/// Takes note of the secondary window. Returns whether it is a new one, of which the user is
/// told.
pub fn maybe_notify_secondary_reset(tracker: &mut WindowTracker, rate: &RateLimits) -> (due: bool)
    ensures
        due == is_new_secondary(*old(tracker), rate@.secondary.resets_at),
        *final(tracker) == secondary_seen(*old(tracker), rate@.secondary.resets_at),
{
    let current = rate.secondary.resets_at;
    let due = starts_anew(
        tracker.seen_secondary_window,
        tracker.last_secondary_resets_at,
        tracker.last_secondary_reset_notified_at,
        current,
        NEW_SECONDARY_WINDOW_SECONDS,
    );
    if due {
        tracker.last_secondary_reset_notified_at = current;
    }
    tracker.seen_secondary_window = true;
    tracker.last_secondary_resets_at = current;
    due
}

/// Whether a pace is too fast.
pub open spec fn is_fast(pace: Option<PaceView>) -> bool {
    pace is Some && pace->0.ahead_percent.is_number() && pace->0.ahead_percent.value()
        >= PACE_ALERT_AHEAD_PERCENT * one()
}

/// Whether an alert was raised already in the window that ends at `current`. An end that only
/// drifted is that of the same window.
pub open spec fn is_alerted(tracker: WindowTracker, current: Option<i64>) -> bool {
    tracker.pace_alert_active && tracker.pace_alert_window is Some && current is Some && current->0
        < tracker.pace_alert_window->0.wrapping_add(NEW_PRIMARY_WINDOW_SECONDS)
}

/// Whether an alert is due: usage is too fast in a window in which none was raised yet.
pub open spec fn is_alert_due(
    tracker: WindowTracker,
    current: Option<i64>,
    pace: Option<PaceView>,
) -> bool {
    current is Some && is_fast(pace) && !is_alerted(tracker, current)
}

/// The windows seen last, after a look at the pace in the primary window that ends at `current`.
pub open spec fn pace_seen(
    tracker: WindowTracker,
    current: Option<i64>,
    pace: Option<PaceView>,
) -> WindowTracker {
    WindowTracker {
        pace_alert_window: current,
        pace_alert_active: is_alerted(tracker, current) || is_alert_due(tracker, current, pace),
        ..tracker
    }
}

/// Takes note of the pace in the primary window. Returns whether it is too fast, of which the
/// user is told once in each window.
pub fn maybe_notify_fast_pace(
    tracker: &mut WindowTracker,
    rate: &RateLimits,
    pace: &Option<Pace>,
) -> (due: bool)
    ensures
        due == is_alert_due(*old(tracker), rate@.primary.resets_at, pace_view(*pace)),
        *final(tracker) == pace_seen(*old(tracker), rate@.primary.resets_at, pace_view(*pace)),
{
    let fast = match pace {
        Some(p) => p.ahead_percent.at_least(PACE_ALERT_AHEAD_PERCENT),
        None => false,
    };
    let current = rate.primary.resets_at;
    let alerted = match (tracker.pace_alert_window, current) {
        (Some(previous), Some(end)) => tracker.pace_alert_active && end < previous.wrapping_add(
            NEW_PRIMARY_WINDOW_SECONDS,
        ),
        _ => false,
    };
    let due = current.is_some() && fast && !alerted;
    tracker.pace_alert_window = current;
    tracker.pace_alert_active = alerted || due;
    due
}

/// A window whose end only drifted is never taken for a new one.
pub proof fn law_drift_is_no_new_window(window: SeenWindow, current: i64, step: i64)
    requires
        window.last is Some,
        window.last->0 + step <= i64::MAX,
        step >= 0,
        current - window.last->0 < step,
    ensures
        !is_new(window, Some(current), step),
{
}

/// What is known after windows that end at `ends`.
pub open spec fn after_all(window: SeenWindow, ends: Seq<Option<i64>>, step: i64) -> SeenWindow
    decreases ends.len(),
{
    if ends.len() == 0 {
        window
    } else {
        after(after_all(window, ends.drop_last(), step), ends.last(), step)
    }
}

/// How many of the windows that end at `ends` are found to be new.
pub open spec fn new_windows(window: SeenWindow, ends: Seq<Option<i64>>, step: i64) -> nat
    decreases ends.len(),
{
    if ends.len() == 0 {
        0
    } else {
        let before = after_all(window, ends.drop_last(), step);
        new_windows(window, ends.drop_last(), step) + if is_new(before, ends.last(), step) {
            1nat
        } else {
            0nat
        }
    }
}

proof fn lemma_notified_stays(window: SeenWindow, ends: Seq<Option<i64>>, step: i64)
    requires
        new_windows(window, ends, step) == 0,
    ensures
        after_all(window, ends, step).notified == window.notified,
    decreases ends.len(),
{
    if ends.len() > 0 {
        lemma_notified_stays(window, ends.drop_last(), step);
    }
}

/// A window that was found to be new is not found to be new again, neither at once nor after
/// others that are not new.
pub proof fn law_a_window_is_new_only_once(
    window: SeenWindow,
    current: i64,
    between: Seq<Option<i64>>,
    step: i64,
)
    requires
        is_new(window, Some(current), step),
        new_windows(after(window, Some(current), step), between, step) == 0,
    ensures
        !is_new(after_all(after(window, Some(current), step), between, step), Some(current), step),
{
    lemma_notified_stays(after(window, Some(current), step), between, step);
}

/// The windows seen last, after some looks at the pace: the end of the primary window and the
/// pace in it at each.
pub open spec fn paces_seen(
    tracker: WindowTracker,
    looks: Seq<(i64, Option<PaceView>)>,
) -> WindowTracker
    decreases looks.len(),
{
    if looks.len() == 0 {
        tracker
    } else {
        pace_seen(
            paces_seen(tracker, looks.drop_last()),
            Some(looks.last().0),
            looks.last().1,
        )
    }
}

/// Whether the ends at some looks only drift, so that all are looks at one window.
pub open spec fn is_one_window(looks: Seq<(i64, Option<PaceView>)>) -> bool {
    forall|i: int|
        0 < i < looks.len() ==> (#[trigger] looks[i]).0 < looks[i - 1].0.wrapping_add(
            NEW_PRIMARY_WINDOW_SECONDS,
        )
}

/// However often the pace in a window is looked at and however it changes, the user is alerted at
/// most once: where some look raised an alert, no later look raises one.
pub proof fn law_one_pace_alert_in_a_window(
    tracker: WindowTracker,
    looks: Seq<(i64, Option<PaceView>)>,
    i: int,
    j: int,
)
    requires
        is_one_window(looks),
        0 <= i < j < looks.len(),
        is_alert_due(paces_seen(tracker, looks.take(i)), Some(looks[i].0), looks[i].1),
    ensures
        !is_alert_due(paces_seen(tracker, looks.take(j)), Some(looks[j].0), looks[j].1),
{
    lemma_alert_stays(tracker, looks, i, j);
    assert(looks[j].0 < looks[j - 1].0.wrapping_add(NEW_PRIMARY_WINDOW_SECONDS));
}

proof fn lemma_alert_stays(
    tracker: WindowTracker,
    looks: Seq<(i64, Option<PaceView>)>,
    i: int,
    j: int,
)
    requires
        is_one_window(looks),
        0 <= i < j <= looks.len(),
        is_alert_due(paces_seen(tracker, looks.take(i)), Some(looks[i].0), looks[i].1),
    ensures
        paces_seen(tracker, looks.take(j)).pace_alert_active,
        paces_seen(tracker, looks.take(j)).pace_alert_window == Some(looks[j - 1].0),
    decreases j,
{
    assert(looks.take(j).drop_last() =~= looks.take(j - 1));
    if i < j - 1 {
        lemma_alert_stays(tracker, looks, i, j - 1);
        assert(looks[j - 1].0 < looks[j - 2].0.wrapping_add(NEW_PRIMARY_WINDOW_SECONDS));
    }
}

/// Whether an overlay may be shown at `now`: none was shown yet, or the last one is long enough
/// ago.
pub open spec fn overlay_due(last: Option<i64>, now: i64) -> bool {
    last is None || now.wrapping_sub(last->0) >= PARTY_OVERLAY_COOLDOWN_SECONDS
}

/// When an overlay was shown last, after one was asked for at `now`.
pub open spec fn last_overlay(last: Option<i64>, now: i64) -> Option<i64> {
    if overlay_due(last, now) {
        Some(now)
    } else {
        last
    }
}

/// Whether an overlay may be shown at `now`. If so, it counts as shown.
pub fn party_overlay_allowed_at(last: &mut Option<i64>, now: i64) -> (allowed: bool)
    ensures
        allowed == overlay_due(*old(last), now),
        *final(last) == last_overlay(*old(last), now),
        *final(last) == (if allowed {
            Some(now)
        } else {
            *old(last)
        }),
{
    if let Some(shown) = *last {
        if now.wrapping_sub(shown) < PARTY_OVERLAY_COOLDOWN_SECONDS {
            return false;
        }
    }
    *last = Some(now);
    true
}

/// Whether an overlay may be shown now. If so, it counts as shown.
pub fn party_overlay_allowed(last: &mut Option<i64>) -> (allowed: bool)
    ensures
        exists|now: i64|
            is_second(now) && second_was_read(now) && allowed == #[trigger] overlay_due(
                *old(last),
                now,
            ) && *final(last) == (if allowed {
                Some(now)
            } else {
                *old(last)
            }),
        *old(last) is None ==> allowed,
{
    let now = clock_now();
    party_overlay_allowed_at(last, now.secs)
}

/// Whether the overlay of a reset is shown at `now`: in party mode, where one may be shown. If so,
/// it counts as shown.
pub fn reset_overlay_at(party_mode: bool, last: &mut Option<i64>, now: i64) -> (shown: bool)
    ensures
        shown == (party_mode && overlay_due(*old(last), now)),
        party_mode ==> *final(last) == last_overlay(*old(last), now),
        *final(last) == (if shown {
            Some(now)
        } else {
            *old(last)
        }),
{
    party_mode && party_overlay_allowed_at(last, now)
}

/// Whether the overlay of a reset is shown now. If so, it counts as shown.
pub fn reset_overlay(party_mode: bool, last: &mut Option<i64>) -> (shown: bool)
    ensures
        exists|now: i64|
            #[trigger] is_second(now) && second_was_read(now) && shown == (party_mode && overlay_due(*old(last), now))
                && *final(last) == (if shown {
                Some(now)
            } else {
                *old(last)
            }),
        *old(last) is None ==> shown == party_mode,
{
    let now = clock_now();
    reset_overlay_at(party_mode, last, now.secs)
}

/// When overlays are shown that are asked for at `times`.
pub open spec fn overlays(times: Seq<i64>) -> Seq<i64>
    decreases times.len(),
{
    if times.len() == 0 {
        Seq::empty()
    } else {
        let shown = overlays(times.drop_last());
        let last = if shown.len() == 0 {
            None
        } else {
            Some(shown.last())
        };
        if overlay_due(last, times.last()) {
            shown.push(times.last())
        } else {
            shown
        }
    }
}

/// However often overlays are asked for, no two follow each other within the cooldown.
pub proof fn law_overlays_keep_their_distance(times: Seq<i64>, i: int)
    requires
        forall|k: int| 0 <= k < times.len() ==> #[trigger] times[k] >= 0,
        0 <= i < overlays(times).len() - 1,
    ensures
        overlays(times)[i + 1] - overlays(times)[i] >= PARTY_OVERLAY_COOLDOWN_SECONDS,
    decreases times.len(),
{
    if times.len() > 0 {
        let front = times.drop_last();
        let before = overlays(front);
        assert forall|k: int| 0 <= k < front.len() implies #[trigger] front[k] >= 0 by {
            assert(front[k] == times[k]);
        }
        if i < before.len() - 1 {
            law_overlays_keep_their_distance(front, i);
        } else {
            lemma_overlays_are_asked_for(front);
            assert(times[times.len() - 1] >= 0);
            assert(before.last() >= 0);
        }
    }
}

proof fn lemma_overlays_are_asked_for(times: Seq<i64>)
    requires
        forall|k: int| 0 <= k < times.len() ==> #[trigger] times[k] >= 0,
    ensures
        forall|k: int| 0 <= k < overlays(times).len() ==> #[trigger] overlays(times)[k] >= 0,
    decreases times.len(),
{
    if times.len() > 0 {
        let front = times.drop_last();
        assert forall|k: int| 0 <= k < front.len() implies #[trigger] front[k] >= 0 by {
            assert(front[k] == times[k]);
        }
        lemma_overlays_are_asked_for(front);
        assert(times[times.len() - 1] >= 0);
        assert forall|k: int| 0 <= k < overlays(times).len() implies #[trigger] overlays(times)[k]
            >= 0 by {
            if k < overlays(front).len() {
                assert(overlays(front)[k] >= 0);
            }
        }
    }
}

/// What an overlay says.
pub open spec fn overlay_words(message: Seq<char>, big: bool) -> Seq<char> {
    if big {
        "THE WEEKLY RATE LIMIT HAS BEEN RESET!"@
    } else if contains_text(message, "5 hour"@) {
        "The 5 hour rate limit has been reset!"@
    } else {
        message
    }
}

/// The markup of an overlay.
pub open spec fn overlay_text(message: Seq<char>, big: bool) -> Seq<char> {
    let body = html_escaped(overlay_words(message, big));
    if big {
        "<span font_desc=\"72\">🎉 🎊 🥳 ✨ 🎉</span>\n<span font_desc=\"24\" weight=\"bold\">"@
            + body + "</span>"@
    } else {
        "<span font_desc=\"58\">🎉 🎊 ✨</span>\n<span font_desc=\"20\" weight=\"bold\">"@
            + body + "</span>"@
    }
}

/// The markup of an overlay.
pub fn overlay_markup(message: &str, big: bool) -> (markup: String)
    ensures
        markup@ == overlay_text(message@, big),
{
    let words = if big {
        "THE WEEKLY RATE LIMIT HAS BEEN RESET!"
    } else if has_part(message, "5 hour") {
        "The 5 hour rate limit has been reset!"
    } else {
        message
    };
    let body = html_escape(words);
    let mut out = if big {
        "<span font_desc=\"72\">🎉 🎊 🥳 ✨ 🎉</span>\n<span font_desc=\"24\" weight=\"bold\">".to_owned()
    } else {
        "<span font_desc=\"58\">🎉 🎊 ✨</span>\n<span font_desc=\"20\" weight=\"bold\">".to_owned()
    };
    out.append(body.as_str());
    out.append("</span>");
    out
}

/// The number that follows in a fixed sequence that looks random.
pub open spec fn next_seed(seed: u64) -> u64 {
    seed.wrapping_mul(6364136223846793005).wrapping_add(1)
}

/// Goes on to the next number of a fixed sequence that looks random, and returns its upper half.
pub fn next_rand(seed: &mut u64) -> (upper: u64)
    ensures
        *final(seed) == next_seed(*old(seed)),
        *final(seed) == old(seed).wrapping_mul(6364136223846793005).wrapping_add(1),
        upper == *final(seed) / 0x1_0000_0000,
{
    *seed = seed.wrapping_mul(6364136223846793005).wrapping_add(1);
    *seed / 0x1_0000_0000
}

/// A primary window is a new one exactly where one was seen before, it ends at least four and a half
/// hours later than that one, and it was not found to be new already. A secondary window has to end
/// a week less half an hour later.
pub proof fn law_windows_are_new_when_they_end_much_later(
    tracker: WindowTracker,
    last: i64,
    current: i64,
)
    requires
        last + 603000 <= i64::MAX,
    ensures
        tracker.last_primary_resets_at == Some(last) ==> (is_new_primary(tracker, Some(current))
            <==> tracker.seen_primary_window && current - last >= 16200
            && tracker.last_primary_reset_notified_at != Some(current)),
        tracker.last_secondary_resets_at == Some(last) ==> (is_new_secondary(tracker, Some(current))
            <==> tracker.seen_secondary_window && current - last >= 603000
            && tracker.last_secondary_reset_notified_at != Some(current)),
        tracker.last_primary_resets_at is None ==> !is_new_primary(tracker, Some(current)),
        tracker.last_secondary_resets_at is None ==> !is_new_secondary(tracker, Some(current)),
        !is_new_primary(tracker, None),
        !is_new_secondary(tracker, None),
{
}

/// Each window that is noted is the last one seen from then on, and it counts as found to be new where
/// it was. The other window and the alerts stay as they were.
pub proof fn law_noted_windows_are_remembered(tracker: WindowTracker, current: Option<i64>)
    ensures
        ({
            let after = primary_seen(tracker, current);
            &&& after.seen_primary_window && after.last_primary_resets_at == current
            &&& is_new_primary(tracker, current) ==> after.last_primary_reset_notified_at == current
            &&& !is_new_primary(tracker, current) ==> after.last_primary_reset_notified_at
                == tracker.last_primary_reset_notified_at
            &&& after.seen_secondary_window == tracker.seen_secondary_window
            &&& after.last_secondary_resets_at == tracker.last_secondary_resets_at
            &&& after.last_secondary_reset_notified_at == tracker.last_secondary_reset_notified_at
            &&& after.pace_alert_active == tracker.pace_alert_active
            &&& after.pace_alert_window == tracker.pace_alert_window
        }),
        ({
            let after = secondary_seen(tracker, current);
            &&& after.seen_secondary_window && after.last_secondary_resets_at == current
            &&& is_new_secondary(tracker, current) ==> after.last_secondary_reset_notified_at
                == current
            &&& !is_new_secondary(tracker, current) ==> after.last_secondary_reset_notified_at
                == tracker.last_secondary_reset_notified_at
            &&& after.seen_primary_window == tracker.seen_primary_window
            &&& after.last_primary_resets_at == tracker.last_primary_resets_at
            &&& after.last_primary_reset_notified_at == tracker.last_primary_reset_notified_at
            &&& after.pace_alert_active == tracker.pace_alert_active
            &&& after.pace_alert_window == tracker.pace_alert_window
        }),
        !no_windows().seen_primary_window,
        !no_windows().seen_secondary_window,
        no_windows().last_primary_resets_at is None,
        no_windows().last_secondary_resets_at is None,
        no_windows().last_primary_reset_notified_at is None,
        no_windows().last_secondary_reset_notified_at is None,
        !no_windows().pace_alert_active,
        no_windows().pace_alert_window is None,
{
}

/// The first window that is seen is never a new one, whatever it is.
pub proof fn law_the_first_window_is_not_new(current: Option<i64>)
    ensures
        !is_new_primary(no_windows(), current),
        !is_new_secondary(no_windows(), current),
{
}

/// An alert is due where usage is at least ten percent ahead of an even pace in a known window, unless
/// one was raised already in a window that ends less than four and a half hours earlier. Only the
/// alerts change.
pub proof fn law_alerts_are_due_when_usage_is_far_ahead(
    tracker: WindowTracker,
    end: i64,
    pace: PaceView,
)
    requires
        tracker.pace_alert_window is Some ==> tracker.pace_alert_window->0 + 16200 <= i64::MAX,
    ensures
        ({
            let far = pace.ahead_percent.is_number() && pace.ahead_percent.value() >= 10 * one();
            let raised = tracker.pace_alert_active && tracker.pace_alert_window is Some && end
                - tracker.pace_alert_window->0 < 16200;
            let after = pace_seen(tracker, Some(end), Some(pace));
            &&& is_alert_due(tracker, Some(end), Some(pace)) <==> far && !raised
            &&& after.pace_alert_active <==> far || raised
            &&& after.pace_alert_window == Some(end)
            &&& !is_alert_due(tracker, Some(end), None)
            &&& !is_alert_due(tracker, None, Some(pace))
            &&& !pace_seen(tracker, None, Some(pace)).pace_alert_active
            &&& after.seen_primary_window == tracker.seen_primary_window
            &&& after.last_primary_resets_at == tracker.last_primary_resets_at
            &&& after.last_primary_reset_notified_at == tracker.last_primary_reset_notified_at
            &&& after.seen_secondary_window == tracker.seen_secondary_window
            &&& after.last_secondary_resets_at == tracker.last_secondary_resets_at
            &&& after.last_secondary_reset_notified_at == tracker.last_secondary_reset_notified_at
        }),
{
}

/// An overlay may be shown where none was shown yet, or where the last one is at least ten minutes
/// ago. One that is shown is the last from then on, and one that is not changes nothing.
pub proof fn law_overlays_are_ten_minutes_apart(last: i64, now: i64)
    requires
        i64::MIN <= now - last <= i64::MAX,
    ensures
        last_overlay(None, now) == Some(now),
        now - last >= 600 ==> last_overlay(Some(last), now) == Some(now),
        now - last < 600 ==> last_overlay(Some(last), now) == Some(last),
        overlay_due(None, now),
        overlay_due(Some(last), now) <==> now - last >= 600,
{
}

/// A big overlay speaks of the week. Another speaks of the five hours where its message does, and else
/// says its message. What it says is escaped.
pub proof fn law_overlays_say_what_was_reset(
    message: Seq<char>,
    before: Seq<char>,
    after: Seq<char>,
)
    ensures
        overlay_words(message, true) == "THE WEEKLY RATE LIMIT HAS BEEN RESET!"@,
        overlay_words(before + "5 hour"@ + after, false) == "The 5 hour rate limit has been reset!"@,
        !contains_text(message, "5 hour"@) ==> overlay_words(message, false) == message,
        contains_text(
            overlay_text(message, true),
            html_escaped("THE WEEKLY RATE LIMIT HAS BEEN RESET!"@),
        ),
        !contains_text(message, "5 hour"@) ==> contains_text(
            overlay_text(message, false),
            html_escaped(message),
        ),
{
    law_a_text_holds_its_parts(before, "5 hour"@, after);
    law_a_text_holds_its_parts(
        "<span font_desc=\"72\">🎉 🎊 🥳 ✨ 🎉</span>\n<span font_desc=\"24\" weight=\"bold\">"@,
        html_escaped("THE WEEKLY RATE LIMIT HAS BEEN RESET!"@),
        "</span>"@,
    );
    law_a_text_holds_its_parts(
        "<span font_desc=\"58\">🎉 🎊 ✨</span>\n<span font_desc=\"20\" weight=\"bold\">"@,
        html_escaped(message),
        "</span>"@,
    );
}

/// The sequence that looks random is a linear one in 64 bits.
pub proof fn law_the_sequence_is_linear(seed: u64)
    ensures
        next_seed(seed) as int == (seed as int * 6364136223846793005 + 1)
            % 0x1_0000_0000_0000_0000,
{
    let m = 0x1_0000_0000_0000_0000int;
    let x = seed as int * 6364136223846793005;
    let w = seed.wrapping_mul(6364136223846793005) as int;
    assert(w == x % m);
    vstd::arithmetic::div_mod::lemma_add_mod_noop(x, 1, m);
}

/// What is said of a window that starts anew names that window, and its overlay says the same: the five
/// hours of the primary one, and the week of the secondary one. Neither is said of a pace.
pub proof fn law_messages_name_their_window()
    ensures
        overlay_words(PRIMARY_RESET_MESSAGE@, false) == "The 5 hour rate limit has been reset!"@,
        overlay_words(SECONDARY_RESET_MESSAGE@, true) == "THE WEEKLY RATE LIMIT HAS BEEN RESET!"@,
        occurs_at(PRIMARY_RESET_MESSAGE@, "The 5 hour rate limit has been reset!"@, 0),
        occurs_at(SECONDARY_RESET_MESSAGE@, "THE WEEKLY RATE LIMIT HAS BEEN RESET!"@, 0),
        occurs_at(FAST_PACE_MESSAGE@, "Slow down, cowboy!"@, 0),
{
    reveal_strlit("The 5 hour rate limit has been reset! 🎉");
    reveal_strlit("The 5 hour rate limit has been reset!");
    reveal_strlit("THE WEEKLY RATE LIMIT HAS BEEN RESET! 🎉🎊🥳✨");
    reveal_strlit("THE WEEKLY RATE LIMIT HAS BEEN RESET!");
    reveal_strlit("Slow down, cowboy! 🤠 You are using up your rate limit FAST. Watch out! 🐬");
    reveal_strlit("Slow down, cowboy!");
    reveal_strlit("5 hour");
    let primary = PRIMARY_RESET_MESSAGE@;
    assert(primary.subrange(4, 10) =~= "5 hour"@);
    assert(occurs_at(primary, "5 hour"@, 4));
    assert(primary.subrange(0, 37) =~= "The 5 hour rate limit has been reset!"@);
    assert(SECONDARY_RESET_MESSAGE@.subrange(0, 37)
        =~= "THE WEEKLY RATE LIMIT HAS BEEN RESET!"@);
    assert(FAST_PACE_MESSAGE@.subrange(0, 18) =~= "Slow down, cowboy!"@);
}

} // verus!
