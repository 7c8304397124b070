//! What the tray and its menu show.
use crate::clock::{
    clock_now, clock_shown, fetched_at_text_at, is_offset, is_reading, is_second, moment_shown,
    offset_at, offset_was_read, reset_clock_text_at, reset_text_at, reset_text_of, second_was_read,
    was_read, TimePoint,
};
use crate::double::Double;
use crate::limits::{
    display_plan, display_rate_limits_at, full_name, limits_view, no_window, pace_delta_markup,
    pace_line, pace_view, plan_shown, rate_color, short_name, shown_at, usage_bar, usage_bar_text,
    usage_color, window_full, window_present, window_short, Pace, PaceView, RateLimits,
    RateLimitsView, WindowLimit,
};
use crate::mascot::{icon_suffix, suffix_of, MascotRuntime};
use crate::money::{dollars, dollars_text, money_view, Money, MoneyView};
use crate::notify::{
    is_alert_due, is_new_primary, is_new_secondary, maybe_notify_fast_pace,
    maybe_notify_primary_reset, maybe_notify_secondary_reset, no_windows, pace_seen, primary_seen,
    secondary_seen, WindowTracker,
};
use crate::stats::{Stats, StatsView};
use crate::status::{source_name, StatusSource};
use crate::text::{html_escape, html_escaped, same_text};
use vstd::prelude::*;
use vstd::string::*;

verus! {

/// The texts that floating-point formatting gives for rate limits.
pub struct RateWords {
    /// The usage of the primary window in whole percent.
    pub primary_percent: String,
    /// The usage of the secondary window in whole percent.
    pub secondary_percent: String,
    /// The pace in the primary window.
    pub pace: Option<Pace>,
}

/// What the texts for rate limits say.
pub struct RateWordsView {
    pub primary_percent: Seq<char>,
    pub secondary_percent: Seq<char>,
    pub pace: Option<PaceView>,
}

impl View for RateWords {
    type V = RateWordsView;

    open spec fn view(&self) -> RateWordsView {
        RateWordsView {
            primary_percent: self.primary_percent@,
            secondary_percent: self.secondary_percent@,
            pace: pace_view(self.pace),
        }
    }
}

/// The texts for the times in a status.
pub struct ShownTimes {
    /// How long it is until the primary window resets.
    pub primary_reset: String,
    /// When the primary window resets.
    pub primary_clock: String,
    /// How long it is until the secondary window resets.
    pub secondary_reset: String,
    /// When the secondary window resets.
    pub secondary_clock: String,
    /// When the status was made.
    pub fetched: String,
}

/// What the texts for the times say.
pub struct ShownTimesView {
    pub primary_reset: Seq<char>,
    pub primary_clock: Seq<char>,
    pub secondary_reset: Seq<char>,
    pub secondary_clock: Seq<char>,
    pub fetched: Seq<char>,
}

impl View for ShownTimes {
    type V = ShownTimesView;

    open spec fn view(&self) -> ShownTimesView {
        ShownTimesView {
            primary_reset: self.primary_reset@,
            primary_clock: self.primary_clock@,
            secondary_reset: self.secondary_reset@,
            secondary_clock: self.secondary_clock@,
            fetched: self.fetched@,
        }
    }
}

/// The markup of the settings in the menu.
pub struct SettingsMarkup {
    pub party_mode: String,
    pub mascot: String,
    pub refresh_interval: String,
}

/// What the markup of the settings says.
pub struct SettingsMarkupView {
    pub party_mode: Seq<char>,
    pub mascot: Seq<char>,
    pub refresh_interval: Seq<char>,
}

impl View for SettingsMarkup {
    type V = SettingsMarkupView;

    open spec fn view(&self) -> SettingsMarkupView {
        SettingsMarkupView {
            party_mode: self.party_mode@,
            mascot: self.mascot@,
            refresh_interval: self.refresh_interval@,
        }
    }
}

/// Everything that the tray and its menu show.
#[derive(Debug)]
pub struct RenderSnapshot {
    pub primary_header_markup: String,
    pub limit_markup: String,
    pub weekly_header_markup: String,
    pub weekly_markup: String,
    pub pace_markup: String,
    pub plan_markup: String,
    pub auth_markup: String,
    pub updated_markup: String,
    pub source_markup: String,
    pub party_mode_markup: String,
    pub mascot_markup: String,
    pub refresh_interval_markup: String,
    pub tray_label: String,
    pub svg_label: String,
    pub title: String,
}

/// What the tray and its menu say.
pub struct RenderSnapshotView {
    pub primary_header_markup: Seq<char>,
    pub limit_markup: Seq<char>,
    pub weekly_header_markup: Seq<char>,
    pub weekly_markup: Seq<char>,
    pub pace_markup: Seq<char>,
    pub plan_markup: Seq<char>,
    pub auth_markup: Seq<char>,
    pub updated_markup: Seq<char>,
    pub source_markup: Seq<char>,
    pub party_mode_markup: Seq<char>,
    pub mascot_markup: Seq<char>,
    pub refresh_interval_markup: Seq<char>,
    pub tray_label: Seq<char>,
    pub svg_label: Seq<char>,
    pub title: Seq<char>,
}

impl View for RenderSnapshot {
    type V = RenderSnapshotView;

    open spec fn view(&self) -> RenderSnapshotView {
        RenderSnapshotView {
            primary_header_markup: self.primary_header_markup@,
            limit_markup: self.limit_markup@,
            weekly_header_markup: self.weekly_header_markup@,
            weekly_markup: self.weekly_markup@,
            pace_markup: self.pace_markup@,
            plan_markup: self.plan_markup@,
            auth_markup: self.auth_markup@,
            updated_markup: self.updated_markup@,
            source_markup: self.source_markup@,
            party_mode_markup: self.party_mode_markup@,
            mascot_markup: self.mascot_markup@,
            refresh_interval_markup: self.refresh_interval_markup@,
            tray_label: self.tray_label@,
            svg_label: self.svg_label@,
            title: self.title@,
        }
    }
}

impl RenderSnapshot {
    /// Whether two snapshots show the same.
    pub fn same(&self, other: &RenderSnapshot) -> (r: bool)
        ensures
            r == (self@ == other@),
    {
        same_text(
            self.primary_header_markup.as_str(),
            other.primary_header_markup.as_str(),
        ) && same_text(self.limit_markup.as_str(), other.limit_markup.as_str()) && same_text(
            self.weekly_header_markup.as_str(),
            other.weekly_header_markup.as_str(),
        ) && same_text(self.weekly_markup.as_str(), other.weekly_markup.as_str()) && same_text(
            self.pace_markup.as_str(),
            other.pace_markup.as_str(),
        ) && same_text(self.plan_markup.as_str(), other.plan_markup.as_str()) && same_text(
            self.auth_markup.as_str(),
            other.auth_markup.as_str(),
        ) && same_text(self.updated_markup.as_str(), other.updated_markup.as_str()) && same_text(
            self.source_markup.as_str(),
            other.source_markup.as_str(),
        ) && same_text(
            self.party_mode_markup.as_str(),
            other.party_mode_markup.as_str(),
        ) && same_text(self.mascot_markup.as_str(), other.mascot_markup.as_str()) && same_text(
            self.refresh_interval_markup.as_str(),
            other.refresh_interval_markup.as_str(),
        ) && same_text(self.tray_label.as_str(), other.tray_label.as_str()) && same_text(
            self.svg_label.as_str(),
            other.svg_label.as_str(),
        ) && same_text(self.title.as_str(), other.title.as_str())
    }
}

/// The header of a window in the menu.
pub open spec fn window_header(w: WindowLimit, reset: Seq<char>, clock: Seq<char>) -> Seq<char> {
    if w.resets_at is Some {
        "<b>"@ + full_name(w.window_duration_mins) + " limit</b>  |  reset in "@ + reset + " ("@
            + clock + ")"@
    } else {
        "<b>limit unavailable</b>"@
    }
}

fn window_header_markup(w: &WindowLimit, reset: &str, clock: &str) -> (markup: String)
    ensures
        markup@ == window_header(*w, reset@, clock@),
{
    if !window_present(w) {
        return "<b>limit unavailable</b>".to_owned();
    }
    let mut out = "<b>".to_owned();
    out.append(window_full(w.window_duration_mins));
    out.append(" limit</b>  |  reset in ");
    out.append(reset);
    out.append(" (");
    out.append(clock);
    out.append(")");
    out
}

/// The usage of a window in the menu.
pub open spec fn window_usage(w: WindowLimit, percent: Seq<char>) -> Seq<char> {
    if w.resets_at is Some {
        usage_bar_text(w.used_percent) + "  <b><span color='"@ + usage_color(w.used_percent)
            + "'>"@ + percent + "%</span> used</b>"@
    } else {
        "no recent Codex/ChatGPT status"@
    }
}

fn window_usage_markup(w: &WindowLimit, percent: &str) -> (markup: String)
    ensures
        markup@ == window_usage(*w, percent@),
{
    if !window_present(w) {
        return "no recent Codex/ChatGPT status".to_owned();
    }
    let mut out = usage_bar(w.used_percent);
    out.append("  <b><span color='");
    out.append(rate_color(w.used_percent));
    out.append("'>");
    out.append(percent);
    out.append("%</span> used</b>");
    out
}

/// A window in the tray.
pub open spec fn window_label(w: WindowLimit, percent: Seq<char>) -> Seq<char> {
    short_name(w.window_duration_mins) + " "@ + percent + "%"@
}

fn window_label_text(w: &WindowLimit, percent: &str) -> (label: String)
    ensures
        label@ == window_label(*w, percent@),
{
    let mut out = window_short(w.window_duration_mins).to_owned();
    out.append(" ");
    out.append(percent);
    out.append("%");
    out
}

/// The windows in the tray: those that are known.
pub open spec fn windows_text(
    primary: WindowLimit,
    secondary: WindowLimit,
    words: RateWordsView,
) -> Seq<char> {
    if primary.resets_at is Some && secondary.resets_at is Some {
        window_label(primary, words.primary_percent) + " | "@ + window_label(
            secondary,
            words.secondary_percent,
        )
    } else if primary.resets_at is Some {
        window_label(primary, words.primary_percent)
    } else {
        window_label(secondary, words.secondary_percent)
    }
}

/// The label in the tray: the windows that are known, and after them what today cost.
pub open spec fn tray_text(
    primary: WindowLimit,
    secondary: WindowLimit,
    words: RateWordsView,
    today_cost: Option<MoneyView>,
) -> Seq<char> {
    if primary.resets_at is None && secondary.resets_at is None {
        "Codex status unavailable"@
    } else {
        windows_text(primary, secondary, words) + " | "@ + dollars_text(today_cost)
    }
}

fn tray_label(
    primary: &WindowLimit,
    secondary: &WindowLimit,
    words: &RateWords,
    today_cost: &Option<Money>,
) -> (label: String)
    ensures
        label@ == tray_text(*primary, *secondary, words@, money_view(*today_cost)),
{
    if !window_present(primary) && !window_present(secondary) {
        return "Codex status unavailable".to_owned();
    }
    let mut out = if window_present(primary) {
        window_label_text(primary, words.primary_percent.as_str())
    } else {
        window_label_text(secondary, words.secondary_percent.as_str())
    };
    if window_present(primary) && window_present(secondary) {
        out.append(" | ");
        out.append(window_label_text(secondary, words.secondary_percent.as_str()).as_str());
    }
    out.append(" | ");
    out.append(dollars(today_cost).as_str());
    out
}

/// The primary window of what may be rate limits.
pub open spec fn primary_of(limits: Option<RateLimitsView>) -> WindowLimit {
    match limits {
        Some(l) => l.primary,
        None => no_window(),
    }
}

/// The secondary window of what may be rate limits.
pub open spec fn secondary_of(limits: Option<RateLimitsView>) -> WindowLimit {
    match limits {
        Some(l) => l.secondary,
        None => no_window(),
    }
}

/// The plan of what may be rate limits.
pub open spec fn plan_of(limits: Option<RateLimitsView>) -> Seq<char> {
    match limits {
        Some(l) => plan_shown(l.plan_type),
        None => "n/a"@,
    }
}

/// The title of the tray.
pub open spec fn title_text(
    primary: WindowLimit,
    secondary: WindowLimit,
    words: RateWordsView,
    today_cost: Option<MoneyView>,
    plan: Seq<char>,
) -> Seq<char> {
    if primary.resets_at is None && secondary.resets_at is None {
        "Codex status unavailable — open Codex CLI or check auth"@
    } else {
        "Codex | "@ + tray_text(primary, secondary, words, today_cost) + " | "@ + plan
    }
}

/// What the tray and its menu show of current rate limits, if there are any.
pub open spec fn rendered(
    limits: Option<RateLimitsView>,
    times: ShownTimesView,
    words: RateWordsView,
    today_cost: Option<MoneyView>,
    auth_status: Seq<char>,
    source: StatusSource,
    settings: SettingsMarkupView,
) -> RenderSnapshotView {
    let primary = primary_of(limits);
    let secondary = secondary_of(limits);
    let plan = plan_of(limits);
    RenderSnapshotView {
        primary_header_markup: window_header(primary, times.primary_reset, times.primary_clock),
        limit_markup: window_usage(primary, words.primary_percent),
        weekly_header_markup: window_header(
            secondary,
            times.secondary_reset,
            times.secondary_clock,
        ),
        weekly_markup: window_usage(secondary, words.secondary_percent),
        pace_markup: if primary.resets_at is Some {
            pace_line(words.pace)
        } else {
            "<b>Pace:</b>  n/a"@
        },
        plan_markup: "<b>Plan:</b>  "@ + plan,
        auth_markup: "<b>Auth:</b>  "@ + auth_status,
        updated_markup: "<b>Updated:</b>  "@ + times.fetched,
        source_markup: "<b>Source:</b>  "@ + source_name(source),
        party_mode_markup: settings.party_mode,
        mascot_markup: settings.mascot,
        refresh_interval_markup: settings.refresh_interval,
        tray_label: tray_text(primary, secondary, words, today_cost),
        svg_label: tray_text(primary, secondary, words, today_cost),
        title: title_text(primary, secondary, words, today_cost, plan),
    }
}

fn labelled(label: &str, text: &str) -> (markup: String)
    ensures
        markup@ == label@ + text@,
{
    let mut out = label.to_owned();
    out.append(text);
    out
}

/// What the tray and its menu show of current rate limits, if there are any.
pub fn render_snapshot(
    limits: &Option<RateLimits>,
    times: &ShownTimes,
    words: &RateWords,
    today_cost: &Option<Money>,
    auth_status: &str,
    source: StatusSource,
    settings: &SettingsMarkup,
) -> (snapshot: RenderSnapshot)
    ensures
        snapshot@ == rendered(
            limits_view(*limits),
            times@,
            words@,
            money_view(*today_cost),
            auth_status@,
            source,
            settings@,
        ),
{
    let (primary, secondary, plan) = match limits {
        Some(l) => (l.primary, l.secondary, display_plan(l.plan_type.as_str()).to_owned()),
        None => (WindowLimit::default(), WindowLimit::default(), "n/a".to_owned()),
    };
    let label = tray_label(&primary, &secondary, words, today_cost);
    let title = if !window_present(&primary) && !window_present(&secondary) {
        "Codex status unavailable — open Codex CLI or check auth".to_owned()
    } else {
        let mut out = "Codex | ".to_owned();
        out.append(label.as_str());
        out.append(" | ");
        out.append(plan.as_str());
        out
    };
    let pace_markup = if window_present(&primary) {
        pace_delta_markup(&words.pace)
    } else {
        "<b>Pace:</b>  n/a".to_owned()
    };
    RenderSnapshot {
        primary_header_markup: window_header_markup(
            &primary,
            times.primary_reset.as_str(),
            times.primary_clock.as_str(),
        ),
        limit_markup: window_usage_markup(&primary, words.primary_percent.as_str()),
        weekly_header_markup: window_header_markup(
            &secondary,
            times.secondary_reset.as_str(),
            times.secondary_clock.as_str(),
        ),
        weekly_markup: window_usage_markup(&secondary, words.secondary_percent.as_str()),
        pace_markup,
        plan_markup: labelled("<b>Plan:</b>  ", plan.as_str()),
        auth_markup: labelled("<b>Auth:</b>  ", auth_status),
        updated_markup: labelled("<b>Updated:</b>  ", times.fetched.as_str()),
        source_markup: labelled("<b>Source:</b>  ", source.label()),
        party_mode_markup: settings.party_mode.clone(),
        mascot_markup: settings.mascot.clone(),
        refresh_interval_markup: settings.refresh_interval.clone(),
        tray_label: label.clone(),
        svg_label: label,
        title,
    }
}

/// By how much the local time differs from that of Greenwich at each of the times in a status.
#[derive(Clone, Copy, Debug, PartialEq, Eq, Structural)]
pub struct LocalOffsets {
    /// When the primary window resets.
    pub primary: i32,
    /// When the secondary window resets.
    pub secondary: i32,
    /// When the status was made.
    pub fetched: i32,
}

impl LocalOffsets {
    /// Whether each offset is less than a day.
    pub open spec fn wf(self) -> bool {
        is_offset(self.primary) && is_offset(self.secondary) && is_offset(self.fetched)
    }

    /// Whether these are the offsets of the local time zone at the times in `stats`.
    pub open spec fn were_read(self, stats: StatsView) -> bool {
        let (primary, secondary) = match stats.rate_limits {
            Some(l) => (l.primary.resets_at, l.secondary.resets_at),
            None => (None, None),
        };
        &&& offset_was_read(primary, self.primary)
        &&& offset_was_read(secondary, self.secondary)
        &&& offset_was_read(stats.status_fetched_at, self.fetched)
    }
}

/// The texts for the times in a status at `now`.
pub open spec fn times_at(
    limits: Option<RateLimitsView>,
    fetched_at: Option<i64>,
    now: TimePoint,
    offsets: LocalOffsets,
) -> ShownTimesView {
    ShownTimesView {
        primary_reset: reset_text_of(primary_of(limits).resets_at, now),
        primary_clock: clock_shown(primary_of(limits).resets_at, offsets.primary),
        secondary_reset: reset_text_of(secondary_of(limits).resets_at, now),
        secondary_clock: clock_shown(secondary_of(limits).resets_at, offsets.secondary),
        fetched: moment_shown(fetched_at, offsets.fetched),
    }
}

/// The texts for the times in a status at `now`.
pub fn shown_times_at(
    limits: &Option<RateLimits>,
    fetched_at: Option<i64>,
    now: TimePoint,
    offsets: LocalOffsets,
) -> (times: ShownTimes)
    requires
        is_reading(now),
        offsets.wf(),
    ensures
        times@ == times_at(limits_view(*limits), fetched_at, now, offsets),
{
    let (primary, secondary) = match limits {
        Some(l) => (l.primary.resets_at, l.secondary.resets_at),
        None => (None, None),
    };
    ShownTimes {
        primary_reset: reset_text_at(primary, now),
        primary_clock: reset_clock_text_at(primary, offsets.primary),
        secondary_reset: reset_text_at(secondary, now),
        secondary_clock: reset_clock_text_at(secondary, offsets.secondary),
        fetched: fetched_at_text_at(fetched_at, offsets.fetched),
    }
}

/// The offsets at the times in `stats`.
pub fn local_offsets(stats: &Stats) -> (offsets: LocalOffsets)
    ensures
        offsets.wf(),
        offsets.were_read(stats@),
{
    let (primary, secondary) = match &stats.rate_limits {
        Some(l) => (l.primary.resets_at, l.secondary.resets_at),
        None => (None, None),
    };
    LocalOffsets {
        primary: offset_at(primary),
        secondary: offset_at(secondary),
        fetched: offset_at(stats.status_fetched_at),
    }
}

/// The rate limits in `stats` that may be shown at `now`.
pub fn current_limits_at(stats: &Stats, now: i64) -> (limits: Option<RateLimits>)
    ensures
        limits_view(limits) == shown_at(stats@.rate_limits, now),
{
    match &stats.rate_limits {
        Some(rate) => display_rate_limits_at(rate, now),
        None => None,
    }
}

/// The rate limits in `stats` that may be shown now.
pub fn current_limits(stats: &Stats) -> (limits: Option<RateLimits>)
    ensures
        exists|now: i64|
            is_second(now) && second_was_read(now) && limits_view(limits) == #[trigger] shown_at(
                stats@.rate_limits,
                now,
            ),
{
    let now = clock_now();
    current_limits_at(stats, now.secs)
}

/// What the tray and its menu show at `now`. Rate limits that are no longer current are left
/// out.
pub open spec fn snapshot_at(
    stats: StatsView,
    words: RateWordsView,
    today_cost: Option<MoneyView>,
    settings: SettingsMarkupView,
    now: TimePoint,
    offsets: LocalOffsets,
) -> RenderSnapshotView {
    let limits = shown_at(stats.rate_limits, now.secs);
    rendered(
        limits,
        times_at(limits, stats.status_fetched_at, now, offsets),
        words,
        today_cost,
        stats.auth_status,
        stats.status_source,
        settings,
    )
}

/// What the tray and its menu show at `now`.
pub fn make_render_snapshot_at(
    stats: &Stats,
    words: &RateWords,
    today_cost: &Option<Money>,
    settings: &SettingsMarkup,
    now: TimePoint,
    offsets: LocalOffsets,
) -> (snapshot: RenderSnapshot)
    requires
        is_reading(now),
        offsets.wf(),
    ensures
        snapshot@ == snapshot_at(
            stats@,
            words@,
            money_view(*today_cost),
            settings@,
            now,
            offsets,
        ),
{
    let limits = current_limits_at(stats, now.secs);
    let times = shown_times_at(&limits, stats.status_fetched_at, now, offsets);
    render_snapshot(
        &limits,
        &times,
        words,
        today_cost,
        stats.auth_status.as_str(),
        stats.status_source,
        settings,
    )
}

/// What the tray and its menu show now.
pub fn make_render_snapshot(
    stats: &Stats,
    words: &RateWords,
    today_cost: &Option<Money>,
    settings: &SettingsMarkup,
) -> (snapshot: RenderSnapshot)
    ensures
        exists|now: TimePoint, offsets: LocalOffsets|
            is_reading(now) && was_read(now) && offsets.wf() && offsets.were_read(stats@)
                && snapshot@ == #[trigger] snapshot_at(
                stats@,
                words@,
                money_view(*today_cost),
                settings@,
                now,
                offsets,
            ),
{
    let now = clock_now();
    let offsets = local_offsets(stats);
    make_render_snapshot_at(stats, words, today_cost, settings, now, offsets)
}

/// Where no rate limits are current, nothing that was known of them shows: neither their
/// percentages nor their times, and no zero in their place.
pub proof fn law_without_current_limits_none_are_shown(
    times: ShownTimesView,
    other_times: ShownTimesView,
    words: RateWordsView,
    other_words: RateWordsView,
    today_cost: Option<MoneyView>,
    auth_status: Seq<char>,
    source: StatusSource,
    settings: SettingsMarkupView,
)
    requires
        times.fetched == other_times.fetched,
    ensures
        rendered(None, times, words, today_cost, auth_status, source, settings) == rendered(
            None,
            other_times,
            other_words,
            today_cost,
            auth_status,
            source,
            settings,
        ),
        rendered(None, times, words, today_cost, auth_status, source, settings).tray_label
            == "Codex status unavailable"@,
{
}

/// What the tray remembers from one refresh to the next.
pub struct TrayState {
    pub last_render: Option<RenderSnapshot>,
    pub last_refresh_at: Option<i64>,
    pub windows: WindowTracker,
}

/// What was shown last.
pub open spec fn render_view(last: Option<RenderSnapshot>) -> Option<RenderSnapshotView> {
    match last {
        Some(s) => Some(s@),
        None => None,
    }
}

/// Whether a refresh is due at `now`: it is forced, there was none yet, or the last one is at
/// least `seconds` ago.
pub open spec fn is_due(last: Option<i64>, force: bool, now: i64, seconds: i64) -> bool {
    force || last is None || now.wrapping_sub(last->0) >= seconds
}

/// What the user is told of rate limits.
#[derive(Clone, Copy, Debug, PartialEq, Eq, Structural)]
pub struct WindowNews {
    /// The primary window started anew.
    pub primary_reset: bool,
    /// The primary window is used up too fast.
    pub fast_pace: bool,
    /// The secondary window started anew.
    pub secondary_reset: bool,
}

/// What the user is told of `limits` and of the pace in their primary window.
pub open spec fn news_of(
    tracker: WindowTracker,
    limits: Option<RateLimitsView>,
    pace: Option<PaceView>,
) -> WindowNews {
    match limits {
        Some(rate) => WindowNews {
            primary_reset: is_new_primary(tracker, rate.primary.resets_at),
            fast_pace: is_alert_due(tracker, rate.primary.resets_at, pace),
            secondary_reset: is_new_secondary(tracker, rate.secondary.resets_at),
        },
        None => WindowNews { primary_reset: false, fast_pace: false, secondary_reset: false },
    }
}

/// The windows seen last, after `limits` and the pace in their primary window.
pub open spec fn windows_seen(
    tracker: WindowTracker,
    limits: Option<RateLimitsView>,
    pace: Option<PaceView>,
) -> WindowTracker {
    match limits {
        Some(rate) => secondary_seen(
            pace_seen(
                primary_seen(tracker, rate.primary.resets_at),
                rate.primary.resets_at,
                pace,
            ),
            rate.secondary.resets_at,
        ),
        None => tracker,
    }
}

/// When the last refresh was made, after one was asked for at `now`.
pub open spec fn last_refresh(last: Option<i64>, force: bool, now: i64, seconds: i64) -> Option<i64> {
    if is_due(last, force, now, seconds) {
        Some(now)
    } else {
        last
    }
}

impl TrayState {
    /// A tray that showed nothing yet.
    pub fn new() -> (state: TrayState)
        ensures
            state.last_render is None,
            state.last_refresh_at is None,
            state.windows == no_windows(),
    {
        TrayState { last_render: None, last_refresh_at: None, windows: WindowTracker::new() }
    }

    /// Whether a refresh is due at `now`. If so, it counts as made.
    pub fn refresh_due_at(&mut self, force: bool, now: i64, seconds: i64) -> (due: bool)
        ensures
            due == is_due(old(self).last_refresh_at, force, now, seconds),
            final(self).last_refresh_at == last_refresh(
                old(self).last_refresh_at,
                force,
                now,
                seconds,
            ),
            final(self).last_refresh_at == (if due {
                Some(now)
            } else {
                old(self).last_refresh_at
            }),
            final(self).last_render == old(self).last_render,
            final(self).windows == old(self).windows,
    {
        let waited = match self.last_refresh_at {
            Some(last) => now.wrapping_sub(last) >= seconds,
            None => true,
        };
        if !force && !waited {
            return false;
        }
        self.last_refresh_at = Some(now);
        true
    }

    /// Whether a refresh is due now. If so, it counts as made.
    pub fn refresh_due(&mut self, force: bool, seconds: i64) -> (due: bool)
        ensures
            exists|now: i64|
                is_second(now) && second_was_read(now) && due == #[trigger] is_due(
                    old(self).last_refresh_at,
                    force,
                    now,
                    seconds,
                ) && final(self).last_refresh_at == (if due {
                    Some(now)
                } else {
                    old(self).last_refresh_at
                }),
            force || old(self).last_refresh_at is None ==> due,
            final(self).last_render == old(self).last_render,
            final(self).windows == old(self).windows,
    {
        let now = clock_now();
        self.refresh_due_at(force, now.secs, seconds)
    }

    /// Takes note of the windows of rate limits and of the pace in the primary one. Returns what
    /// the user is told of them.
    pub fn note_windows(&mut self, limits: &Option<RateLimits>, pace: &Option<Pace>) -> (news:
        WindowNews)
        ensures
            final(self).windows == windows_seen(
                old(self).windows,
                limits_view(*limits),
                pace_view(*pace),
            ),
            news == news_of(old(self).windows, limits_view(*limits), pace_view(*pace)),
            final(self).last_render == old(self).last_render,
            final(self).last_refresh_at == old(self).last_refresh_at,
    {
        match limits {
            Some(rate) => {
                let primary_reset = maybe_notify_primary_reset(&mut self.windows, rate);
                let fast_pace = maybe_notify_fast_pace(&mut self.windows, rate, pace);
                let secondary_reset = maybe_notify_secondary_reset(&mut self.windows, rate);
                WindowNews { primary_reset, fast_pace, secondary_reset }
            },
            None => WindowNews { primary_reset: false, fast_pace: false, secondary_reset: false },
        }
    }

    /// Whether a snapshot differs from what was shown last.
    pub fn is_news(&self, snapshot: &RenderSnapshot) -> (r: bool)
        ensures
            r == (render_view(self.last_render) != Some(snapshot@)),
    {
        match &self.last_render {
            Some(last) => !last.same(snapshot),
            None => true,
        }
    }

    /// Remembers what was shown.
    pub fn remember(&mut self, snapshot: RenderSnapshot)
        ensures
            final(self).last_render == Some(snapshot),
            final(self).last_refresh_at == old(self).last_refresh_at,
            final(self).windows == old(self).windows,
    {
        self.last_render = Some(snapshot);
    }
}

/// How much of the primary window is used, in percent: nothing where no limits are known.
pub fn primary_percent(stats: &Stats) -> (percent: Double)
    ensures
        percent == primary_of(limits_view(stats.rate_limits)).used_percent,
{
    match &stats.rate_limits {
        Some(rate) => rate.primary.used_percent,
        None => Double::zero(),
    }
}

/// The name of the icon. With a mascot it differs from picture to picture.
pub open spec fn icon_name_of(mascot: Option<MascotRuntime>) -> Seq<char> {
    match mascot {
        Some(m) => "StatusBar-Codex-Linux-"@ + suffix_of(m),
        None => "StatusBar-Codex-Linux"@,
    }
}

/// The name of the icon.
pub fn icon_name(mascot: &Option<MascotRuntime>) -> (name: String)
    ensures
        name@ == icon_name_of(*mascot),
{
    match mascot {
        Some(m) => labelled("StatusBar-Codex-Linux-", icon_suffix(m).as_str()),
        None => "StatusBar-Codex-Linux".to_owned(),
    }
}

/// The start of a picture of the label.
pub const LABEL_SVG_START: &'static str = "<svg xmlns=\"http://www.w3.org/2000/svg\" width=\"200\" height=\"28\" viewBox=\"0 0 200 28\">\n  <text x=\"100\" y=\"20\" text-anchor=\"middle\" font-family=\"SF Mono, JetBrains Mono, monospace\" font-size=\"15\" font-weight=\"700\" fill=\"#ffffff\">";

/// The end of a picture of the label.
pub const LABEL_SVG_END: &'static str = "</text>\n</svg>";

/// A picture of the label.
pub fn label_svg(label: &str) -> (svg: String)
    ensures
        svg@ == LABEL_SVG_START@ + html_escaped(label@) + LABEL_SVG_END@,
{
    let mut out = LABEL_SVG_START.to_owned();
    out.append(html_escape(label).as_str());
    out.append(LABEL_SVG_END);
    out
}

/// The tray shows each window that is known by its name and its percentage, the primary one first, and
/// after them what today cost. Where no window is known, it says so.
pub proof fn law_the_tray_shows_the_known_windows(
    primary: WindowLimit,
    secondary: WindowLimit,
    words: RateWordsView,
    today_cost: Option<MoneyView>,
)
    ensures
        ({
            let label = tray_text(primary, secondary, words, today_cost);
            let first = short_name(primary.window_duration_mins) + " "@ + words.primary_percent
                + "%"@;
            let second = short_name(secondary.window_duration_mins) + " "@
                + words.secondary_percent + "%"@;
            &&& primary.resets_at is Some && secondary.resets_at is Some ==> label == first + " | "@
                + second + " | "@ + dollars_text(today_cost)
            &&& primary.resets_at is Some && secondary.resets_at is None ==> label == first + " | "@
                + dollars_text(today_cost)
            &&& primary.resets_at is None && secondary.resets_at is Some ==> label == second
                + " | "@ + dollars_text(today_cost)
            &&& primary.resets_at is None && secondary.resets_at is None ==> label
                == "Codex status unavailable"@
        }),
{
}

/// The menu shows of each window its own name, its own times and its own usage, of the account its plan
/// and its login, and of the status its source and its time; the tray and its picture show the same
/// label.
pub proof fn law_the_menu_shows_each_thing_in_its_place(
    rate: RateLimitsView,
    times: ShownTimesView,
    words: RateWordsView,
    today_cost: Option<MoneyView>,
    auth_status: Seq<char>,
    source: StatusSource,
    settings: SettingsMarkupView,
)
    ensures
        ({
            let shown = rendered(
                Some(rate),
                times,
                words,
                today_cost,
                auth_status,
                source,
                settings,
            );
            let label = tray_text(rate.primary, rate.secondary, words, today_cost);
            &&& rate.primary.resets_at is Some ==> {
                &&& shown.primary_header_markup == "<b>"@ + full_name(
                    rate.primary.window_duration_mins,
                ) + " limit</b>  |  reset in "@ + times.primary_reset + " ("@ + times.primary_clock
                    + ")"@
                &&& shown.limit_markup == usage_bar_text(rate.primary.used_percent)
                    + "  <b><span color='"@ + usage_color(rate.primary.used_percent) + "'>"@
                    + words.primary_percent + "%</span> used</b>"@
                &&& shown.pace_markup == pace_line(words.pace)
                &&& shown.title == "Codex | "@ + label + " | "@ + plan_shown(rate.plan_type)
            }
            &&& rate.primary.resets_at is None ==> {
                &&& shown.primary_header_markup == "<b>limit unavailable</b>"@
                &&& shown.limit_markup == "no recent Codex/ChatGPT status"@
                &&& shown.pace_markup == "<b>Pace:</b>  n/a"@
            }
            &&& rate.secondary.resets_at is Some ==> {
                &&& shown.weekly_header_markup == "<b>"@ + full_name(
                    rate.secondary.window_duration_mins,
                ) + " limit</b>  |  reset in "@ + times.secondary_reset + " ("@
                    + times.secondary_clock + ")"@
                &&& shown.weekly_markup == usage_bar_text(rate.secondary.used_percent)
                    + "  <b><span color='"@ + usage_color(rate.secondary.used_percent) + "'>"@
                    + words.secondary_percent + "%</span> used</b>"@
            }
            &&& rate.secondary.resets_at is None ==> {
                &&& shown.weekly_header_markup == "<b>limit unavailable</b>"@
                &&& shown.weekly_markup == "no recent Codex/ChatGPT status"@
            }
            &&& shown.plan_markup == "<b>Plan:</b>  "@ + plan_shown(rate.plan_type)
            &&& shown.auth_markup == "<b>Auth:</b>  "@ + auth_status
            &&& shown.updated_markup == "<b>Updated:</b>  "@ + times.fetched
            &&& shown.source_markup == "<b>Source:</b>  "@ + source_name(source)
            &&& shown.party_mode_markup == settings.party_mode
            &&& shown.mascot_markup == settings.mascot
            &&& shown.refresh_interval_markup == settings.refresh_interval
            &&& shown.tray_label == label && shown.svg_label == label
        }),
{
}

/// Where no rate limits are current, the menu says so in every place where one would stand, and still
/// shows the login, the source and the time of the status.
pub proof fn law_the_menu_says_when_no_limits_are_current(
    times: ShownTimesView,
    words: RateWordsView,
    today_cost: Option<MoneyView>,
    auth_status: Seq<char>,
    source: StatusSource,
    settings: SettingsMarkupView,
)
    ensures
        ({
            let shown = rendered(None, times, words, today_cost, auth_status, source, settings);
            &&& shown.primary_header_markup == "<b>limit unavailable</b>"@
            &&& shown.weekly_header_markup == "<b>limit unavailable</b>"@
            &&& shown.limit_markup == "no recent Codex/ChatGPT status"@
            &&& shown.weekly_markup == "no recent Codex/ChatGPT status"@
            &&& shown.pace_markup == "<b>Pace:</b>  n/a"@
            &&& shown.plan_markup == "<b>Plan:</b>  "@ + "n/a"@
            &&& shown.auth_markup == "<b>Auth:</b>  "@ + auth_status
            &&& shown.updated_markup == "<b>Updated:</b>  "@ + times.fetched
            &&& shown.source_markup == "<b>Source:</b>  "@ + source_name(source)
            &&& shown.tray_label == "Codex status unavailable"@
            &&& shown.svg_label == "Codex status unavailable"@
            &&& shown.title == "Codex status unavailable — open Codex CLI or check auth"@
        }),
{
}

/// What is shown at a moment is what is shown of the limits whose primary window resets after it: at
/// that second and later they are left out, whatever the statistics still hold.
pub proof fn law_expired_limits_leave_the_menu(
    stats: StatsView,
    words: RateWordsView,
    today_cost: Option<MoneyView>,
    settings: SettingsMarkupView,
    now: TimePoint,
    offsets: LocalOffsets,
)
    requires
        stats.rate_limits is Some,
    ensures
        ({
            let rate = stats.rate_limits->0;
            let shown = snapshot_at(stats, words, today_cost, settings, now, offsets);
            let open = rate.primary.resets_at is Some && rate.primary.resets_at->0 > now.secs;
            &&& !open ==> shown.tray_label == "Codex status unavailable"@ && shown.limit_markup
                == "no recent Codex/ChatGPT status"@ && shown.weekly_markup
                == "no recent Codex/ChatGPT status"@
            &&& open ==> shown.primary_header_markup == "<b>"@ + full_name(
                rate.primary.window_duration_mins,
            ) + " limit</b>  |  reset in "@ + reset_text_of(rate.primary.resets_at, now) + " ("@
                + clock_shown(rate.primary.resets_at, offsets.primary) + ")"@
            &&& open && rate.secondary.resets_at is Some ==> shown.weekly_header_markup == "<b>"@
                + full_name(rate.secondary.window_duration_mins) + " limit</b>  |  reset in "@
                + reset_text_of(rate.secondary.resets_at, now) + " ("@ + clock_shown(
                rate.secondary.resets_at,
                offsets.secondary,
            ) + ")"@
            &&& shown.updated_markup == "<b>Updated:</b>  "@ + moment_shown(
                stats.status_fetched_at,
                offsets.fetched,
            )
            &&& shown.auth_markup == "<b>Auth:</b>  "@ + stats.auth_status
            &&& shown.source_markup == "<b>Source:</b>  "@ + source_name(stats.status_source)
        }),
{
}

/// A refresh is due where it is forced, where there was none yet, and where the last one is at least as
/// long ago as the interval. One that is due is the last from then on, and else nothing changes.
pub proof fn law_refreshes_are_due_after_the_interval(last: i64, force: bool, now: i64, seconds: i64)
    requires
        i64::MIN <= now - last <= i64::MAX,
    ensures
        is_due(None, force, now, seconds),
        is_due(Some(last), true, now, seconds),
        last_refresh(None, force, now, seconds) == Some(now),
        last_refresh(Some(last), true, now, seconds) == Some(now),
        now - last >= seconds ==> last_refresh(Some(last), false, now, seconds) == Some(now),
        now - last < seconds ==> last_refresh(Some(last), false, now, seconds) == Some(last),
        is_due(Some(last), false, now, seconds) <==> now - last >= seconds,
{
}

/// The user is told of each window by itself: what is told of one does not depend on the other, and all
/// that is known of windows is taken up. Without limits nothing is told and nothing changes.
pub proof fn law_each_window_is_told_of_by_itself(
    tracker: WindowTracker,
    rate: RateLimitsView,
    pace: Option<PaceView>,
)
    ensures
        ({
            let news = news_of(tracker, Some(rate), pace);
            let seen = windows_seen(tracker, Some(rate), pace);
            &&& news.primary_reset == is_new_primary(tracker, rate.primary.resets_at)
            &&& news.secondary_reset == is_new_secondary(tracker, rate.secondary.resets_at)
            &&& news.fast_pace == is_alert_due(tracker, rate.primary.resets_at, pace)
            &&& seen.primary() == primary_seen(tracker, rate.primary.resets_at).primary()
            &&& seen.secondary() == secondary_seen(tracker, rate.secondary.resets_at).secondary()
            &&& seen.pace_alert_window == rate.primary.resets_at
            &&& seen.pace_alert_active == pace_seen(
                tracker,
                rate.primary.resets_at,
                pace,
            ).pace_alert_active
        }),
        windows_seen(tracker, None, pace) == tracker,
        !news_of(tracker, None, pace).primary_reset,
        !news_of(tracker, None, pace).secondary_reset,
        !news_of(tracker, None, pace).fast_pace,
{
}

/// The icon has the name of the program, and with a mascot also that of its picture.
pub proof fn law_icons_are_named_after_the_program(mascot: MascotRuntime)
    ensures
        icon_name_of(None) == "StatusBar-Codex-Linux"@,
        icon_name_of(Some(mascot)) == "StatusBar-Codex-Linux-"@ + suffix_of(mascot),
{
}

/// Limits have the windows and the plan that were reported; without limits nothing is used, nothing is
/// known of a reset, and there is no plan.
pub proof fn law_windows_belong_to_their_limits(rate: RateLimitsView)
    ensures
        primary_of(Some(rate)) == rate.primary,
        secondary_of(Some(rate)) == rate.secondary,
        primary_of(None).resets_at is None && primary_of(None).used_percent.bits == 0,
        secondary_of(None).resets_at is None && secondary_of(None).used_percent.bits == 0,
        plan_of(None) == "n/a"@,
        plan_of(Some(rate)) == plan_shown(rate.plan_type),
{
}

} // verus!
