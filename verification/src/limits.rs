//! Rate limits: what the account service and the session files report of them, and how they are
//! shown.
use crate::clock::{clock_now, is_second, second_was_read};
use crate::double::{half, one, Double};
use crate::json::{
    holds, lacks, law_members_are_found_by_name, law_values_are_read_as_what_they_are, Json, JsonNumber,
    JsonView,
};
use crate::text::same_text;
use vstd::prelude::*;
use vstd::string::*;

verus! {

/// One rate-limit window.
#[derive(Clone, Copy, Debug, PartialEq, Eq, Structural)]
pub struct WindowLimit {
    /// How much of the window is used, in percent.
    pub used_percent: Double,
    /// The second at which the window resets.
    pub resets_at: Option<i64>,
    /// The length of the window in minutes.
    pub window_duration_mins: Option<i64>,
}

/// A window of which nothing is known.
pub open spec fn no_window() -> WindowLimit {
    WindowLimit { used_percent: Double { bits: 0 }, resets_at: None, window_duration_mins: None }
}

impl Default for WindowLimit {
    fn default() -> (w: WindowLimit)
        ensures
            w == no_window(),
    {
        WindowLimit { used_percent: Double::zero(), resets_at: None, window_duration_mins: None }
    }
}

/// The rate limits of an account.
#[derive(Debug)]
pub struct RateLimits {
    pub plan_type: String,
    pub primary: WindowLimit,
    pub secondary: WindowLimit,
}

/// What rate limits say.
pub struct RateLimitsView {
    pub plan_type: Seq<char>,
    pub primary: WindowLimit,
    pub secondary: WindowLimit,
}

impl View for RateLimits {
    type V = RateLimitsView;

    open spec fn view(&self) -> RateLimitsView {
        RateLimitsView {
            plan_type: self.plan_type@,
            primary: self.primary,
            secondary: self.secondary,
        }
    }
}

/// What rate limits say, if there are any.
pub open spec fn limits_view(limits: Option<RateLimits>) -> Option<RateLimitsView> {
    match limits {
        Some(l) => Some(l@),
        None => None,
    }
}

impl Default for RateLimits {
    fn default() -> (r: RateLimits)
        ensures
            r@ == no_limits(),
    {
        let r = RateLimits {
            plan_type: String::new(),
            primary: WindowLimit::default(),
            secondary: WindowLimit::default(),
        };
        proof {
            reveal_strlit("");
            assert(r.plan_type@ =~= ""@);
        }
        r
    }
}

/// Rate limits of which nothing is known.
pub open spec fn no_limits() -> RateLimitsView {
    RateLimitsView { plan_type: ""@, primary: no_window(), secondary: no_window() }
}

impl RateLimits {
    /// Other rate limits that say the same.
    pub fn duplicate(&self) -> (r: RateLimits)
        ensures
            r@ == self@,
    {
        RateLimits {
            plan_type: self.plan_type.clone(),
            primary: self.primary,
            secondary: self.secondary,
        }
    }
}

/// Other rate limits that say the same, if there are any.
pub fn duplicate_limits(limits: &Option<RateLimits>) -> (r: Option<RateLimits>)
    ensures
        limits_view(r) == limits_view(*limits),
{
    match limits {
        Some(l) => Some(l.duplicate()),
        None => None,
    }
}

/// The text of a string member, or `n/a`.
pub open spec fn plan_text(value: Option<JsonView>) -> Seq<char> {
    match value {
        Some(v) => match v.as_text() {
            Some(t) => t,
            None => "n/a"@,
        },
        None => "n/a"@,
    }
}

fn plan_of(value: Option<&Json>) -> (text: String)
    ensures
        text@ == plan_text(crate::json::view_of_ref(value)),
{
    match value {
        Some(v) => match v.as_str() {
            Some(t) => t.to_owned(),
            None => "n/a".to_owned(),
        },
        None => "n/a".to_owned(),
    }
}

/// The first of two members that is there.
pub open spec fn either_member(value: JsonView, first: Seq<char>, second: Seq<char>) -> Option<
    JsonView,
> {
    match value.member(first) {
        Some(v) => Some(v),
        None => value.member(second),
    }
}

fn either<'a>(value: &'a Json, first: &str, second: &str) -> (member: Option<&'a Json>)
    ensures
        crate::json::view_of_ref(member) == either_member(value@, first@, second@),
{
    match value.get(first) {
        Some(v) => Some(v),
        None => value.get(second),
    }
}

/// The signed integer of what may be a value.
pub open spec fn signed_of(value: Option<JsonView>) -> Option<i64> {
    match value {
        Some(v) => v.as_signed(),
        None => None,
    }
}

/// The double of what may be a value.
pub open spec fn real_of(value: Option<JsonView>) -> Option<Double> {
    match value {
        Some(v) => v.as_real(),
        None => None,
    }
}

/// A double, or zero where there is none.
pub open spec fn real_or_zero(value: Option<Double>) -> Double {
    match value {
        Some(d) => d,
        None => Double { bits: 0 },
    }
}

/// The window that a session file reports.
pub open spec fn session_window(value: Option<JsonView>) -> WindowLimit {
    match value {
        Some(v) => WindowLimit {
            used_percent: real_or_zero(real_of(v.member("used_percent"@))),
            resets_at: signed_of(v.member("resets_at"@)),
            window_duration_mins: match signed_of(v.member("windowDurationMins"@)) {
                Some(mins) => Some(mins),
                None => signed_of(v.member("window_duration_mins"@)),
            },
        },
        None => no_window(),
    }
}

/// The rate limits in the payload of a session event.
pub open spec fn session_limits(payload: JsonView) -> Option<RateLimitsView> {
    match payload.member("rate_limits"@) {
        Some(raw) => Some(
            RateLimitsView {
                plan_type: plan_text(raw.member("plan_type"@)),
                primary: session_window(raw.member("primary"@)),
                secondary: session_window(raw.member("secondary"@)),
            },
        ),
        None => None,
    }
}

fn signed_member(value: &Json, key: &str) -> (n: Option<i64>)
    ensures
        n == signed_of(value@.member(key@)),
{
    match value.get(key) {
        Some(v) => v.as_i64(),
        None => None,
    }
}

/// The window that a session file reports.
pub fn parse_window(value: Option<&Json>) -> (w: WindowLimit)
    ensures
        w == session_window(crate::json::view_of_ref(value)),
{
    let value = match value {
        Some(value) => value,
        None => return WindowLimit::default(),
    };
    let used = match value.get("used_percent") {
        Some(v) => v.as_real(),
        None => None,
    };
    let mins = match signed_member(value, "windowDurationMins") {
        Some(mins) => Some(mins),
        None => signed_member(value, "window_duration_mins"),
    };
    WindowLimit {
        used_percent: match used {
            Some(d) => d,
            None => Double::zero(),
        },
        resets_at: signed_member(value, "resets_at"),
        window_duration_mins: mins,
    }
}

/// The rate limits in the payload of a session event.
pub fn parse_rate_limits(payload: &Json) -> (limits: Option<RateLimits>)
    ensures
        limits_view(limits) == session_limits(payload@),
{
    match payload.get("rate_limits") {
        Some(raw) => Some(
            RateLimits {
                plan_type: plan_of(raw.get("plan_type")),
                primary: parse_window(raw.get("primary")),
                secondary: parse_window(raw.get("secondary")),
            },
        ),
        None => None,
    }
}

/// The number under `snake`, or under `camel` where there is no `snake`.
pub open spec fn number_under(value: JsonView, snake: Seq<char>, camel: Seq<char>) -> Option<
    Double,
> {
    real_of(either_member(value, snake, camel))
}

/// The integer under `snake`, or under `camel` where there is no `snake`. A number that is no
/// 64-bit integer is cut to one.
pub open spec fn integer_under(value: JsonView, snake: Seq<char>, camel: Seq<char>) -> Option<
    i64,
> {
    match either_member(value, snake, camel) {
        Some(v) => match v.as_signed() {
            Some(n) => Some(n),
            None => match v.as_real() {
                Some(d) => Some(d.truncated()),
                None => None,
            },
        },
        None => None,
    }
}

/// The number under `snake`, or under `camel` where there is no `snake`.
pub fn number_field(value: &Json, snake: &str, camel: &str) -> (n: Option<Double>)
    ensures
        n == number_under(value@, snake@, camel@),
{
    match either(value, snake, camel) {
        Some(v) => v.as_real(),
        None => None,
    }
}

/// The integer under `snake`, or under `camel` where there is no `snake`. A number that is no
/// 64-bit integer is cut to one.
pub fn int_field(value: &Json, snake: &str, camel: &str) -> (n: Option<i64>)
    ensures
        n == integer_under(value@, snake@, camel@),
{
    match either(value, snake, camel) {
        Some(v) => match v.as_i64() {
            Some(n) => Some(n),
            None => match v.as_real() {
                Some(d) => Some(d.truncate()),
                None => None,
            },
        },
        None => None,
    }
}

/// The window that the account service reports.
pub open spec fn service_window(value: Option<JsonView>) -> WindowLimit {
    match value {
        Some(v) => WindowLimit {
            used_percent: real_or_zero(number_under(v, "used_percent"@, "usedPercent"@)),
            resets_at: integer_under(v, "resets_at"@, "resetsAt"@),
            window_duration_mins: integer_under(
                v,
                "window_duration_mins"@,
                "windowDurationMins"@,
            ),
        },
        None => no_window(),
    }
}

/// The rate limits that the account service reports.
pub open spec fn service_limits(raw: JsonView) -> RateLimitsView {
    RateLimitsView {
        plan_type: plan_text(either_member(raw, "planType"@, "plan_type"@)),
        primary: service_window(raw.member("primary"@)),
        secondary: service_window(raw.member("secondary"@)),
    }
}

/// The window that the account service reports.
pub fn parse_window_fields(value: Option<&Json>) -> (w: WindowLimit)
    ensures
        w == service_window(crate::json::view_of_ref(value)),
{
    match value {
        Some(value) => WindowLimit {
            used_percent: match number_field(value, "used_percent", "usedPercent") {
                Some(d) => d,
                None => Double::zero(),
            },
            resets_at: int_field(value, "resets_at", "resetsAt"),
            window_duration_mins: int_field(value, "window_duration_mins", "windowDurationMins"),
        },
        None => WindowLimit::default(),
    }
}

/// The rate limits that the account service reports. Whatever is missing is left open, so this
/// never fails.
pub fn parse_rate_limit_snapshot(raw: &Json) -> (limits: Result<RateLimits, String>)
    ensures
        limits is Ok,
        limits->Ok_0@ == service_limits(raw@),
{
    Ok(
        RateLimits {
            plan_type: plan_of(either(raw, "planType", "plan_type")),
            primary: parse_window_fields(raw.get("primary")),
            secondary: parse_window_fields(raw.get("secondary")),
        },
    )
}

/// Whether a window is still open at `now`.
pub open spec fn window_open(w: WindowLimit, now: i64) -> bool {
    w.resets_at is Some && w.resets_at->0 > now
}

/// Whether rate limits are current at `now`: their primary window is still open.
pub open spec fn current_at(rate: RateLimitsView, now: i64) -> bool {
    window_open(rate.primary, now)
}

/// Whether rate limits are current at `now`.
///
/// A snapshot is only usable while its primary window is open. An expired window is not
/// current usage, whatever the secondary window says.
pub fn rate_limits_valid_at(rate: &RateLimits, now: i64) -> (r: bool)
    ensures
        r == current_at(rate@, now),
{
    match rate.primary.resets_at {
        Some(reset) => reset > now,
        None => false,
    }
}

/// The rate limits that may be shown at `now`: those that are current, and no others.
pub open spec fn shown_at(limits: Option<RateLimitsView>, now: i64) -> Option<RateLimitsView> {
    match limits {
        Some(rate) => if current_at(rate, now) {
            Some(rate)
        } else {
            None
        },
        None => None,
    }
}

/// The rate limits that may be shown at `now`. Expired limits are dropped; they are never turned
/// into a fresh zero.
pub fn display_rate_limits_at(rate: &RateLimits, now: i64) -> (shown: Option<RateLimits>)
    ensures
        limits_view(shown) == shown_at(Some(rate@), now),
{
    if rate_limits_valid_at(rate, now) {
        Some(rate.duplicate())
    } else {
        None
    }
}

/// The rate limits that may be shown now.
pub fn display_rate_limits(rate: &RateLimits) -> (shown: Option<RateLimits>)
    ensures
        exists|now: i64|
            is_second(now) && second_was_read(now) && limits_view(shown) == #[trigger] shown_at(
                Some(rate@),
                now,
            ),
{
    let now = clock_now();
    display_rate_limits_at(rate, now.secs)
}

/// Whether anything is known of a window.
pub fn window_present(w: &WindowLimit) -> (r: bool)
    ensures
        r == w.resets_at is Some,
{
    w.resets_at.is_some()
}

/// The short name of a window of a given length.
pub open spec fn short_name(mins: Option<i64>) -> Seq<char> {
    match mins {
        Some(m) => if m == 300 {
            "5h"@
        } else if m >= 1440 {
            "W"@
        } else {
            "lim"@
        },
        None => "lim"@,
    }
}

/// The full name of a window of a given length.
pub open spec fn full_name(mins: Option<i64>) -> Seq<char> {
    match mins {
        Some(m) => if m == 300 {
            "5h"@
        } else if m >= 1440 {
            "Weekly"@
        } else {
            "Limit"@
        },
        None => "Limit"@,
    }
}

/// The short name of a window, after the length that is reported for it.
pub fn window_short(mins: Option<i64>) -> (name: &'static str)
    ensures
        name@ == short_name(mins),
{
    match mins {
        Some(m) => if m == 300 {
            "5h"
        } else if m >= 1440 {
            "W"
        } else {
            "lim"
        },
        None => "lim",
    }
}

/// The full name of a window, after the length that is reported for it.
pub fn window_full(mins: Option<i64>) -> (name: &'static str)
    ensures
        name@ == full_name(mins),
{
    match mins {
        Some(m) => if m == 300 {
            "5h"
        } else if m >= 1440 {
            "Weekly"
        } else {
            "Limit"
        },
        None => "Limit",
    }
}

/// How a plan is shown.
pub open spec fn plan_shown(plan: Seq<char>) -> Seq<char> {
    if plan == "prolite"@ {
        "$100 Pro (Pro Lite)"@
    } else {
        plan
    }
}

/// How a plan is shown.
pub fn display_plan(plan: &str) -> (shown: &str)
    ensures
        shown@ == plan_shown(plan@),
{
    if same_text(plan, "prolite") {
        "$100 Pro (Pro Lite)"
    } else {
        plan
    }
}

/// The colour of a usage: red from 85 percent, amber from 60 percent, green below. What is not
/// a number is green.
pub open spec fn usage_color(percent: Double) -> Seq<char> {
    if percent.is_number() && percent.value() >= 85 * one() {
        "#e35d5d"@
    } else if percent.is_number() && percent.value() >= 60 * one() {
        "#e5b454"@
    } else {
        "#35c46a"@
    }
}

/// The colour of a usage.
pub fn rate_color(percent: Double) -> (color: &'static str)
    ensures
        color@ == usage_color(percent),
{
    if percent.at_least(85) {
        "#e35d5d"
    } else if percent.at_least(60) {
        "#e5b454"
    } else {
        "#35c46a"
    }
}

/// How many of ten segments a usage fills: a tenth of the percentage, rounded, with halves up,
/// and cut to the bar. What is not a number fills none.
pub open spec fn filled_segments(percent: Double) -> int {
    let tenth = (percent.value() + 5 * one()) / (10 * one());
    if !percent.is_number() || tenth < 0 {
        0
    } else if tenth > 10 {
        10
    } else {
        tenth
    }
}

/// `c` repeated `n` times.
pub open spec fn repeated(c: char, n: int) -> Seq<char> {
    Seq::new(n as nat, |i: int| c)
}

fn push_repeated(out: &mut String, c: char, n: usize)
    ensures
        final(out)@ == old(out)@ + repeated(c, n as int),
{
    let mut i: usize = 0;
    proof {
        assert(out@ =~= old(out)@ + repeated(c, 0));
    }
    while i < n
        invariant
            i <= n,
            out@ == old(out)@ + repeated(c, i as int),
        decreases n - i,
    {
        out.push(c);
        i += 1;
        proof {
            assert(out@ =~= old(out)@ + repeated(c, i as int));
        }
    }
}

proof fn lemma_tenth(v: int, unit: int, k: int)
    requires
        unit > 0,
    ensures
        v >= (10 * k - 5) * unit && v < (10 * k + 5) * unit ==> (v + 5 * unit) / (10 * unit) == k,
        v >= (10 * k - 5) * unit ==> (v + 5 * unit) / (10 * unit) >= k,
        v < (10 * k + 5) * unit ==> (v + 5 * unit) / (10 * unit) <= k,
{
    let d = 10 * unit;
    let x = v + 5 * unit;
    vstd::arithmetic::div_mod::lemma_fundamental_div_mod(x, d);
    vstd::arithmetic::div_mod::lemma_mod_bound(x, d);
    let q = x / d;
    let r = x % d;
    if v >= (10 * k - 5) * unit {
        assert(q >= k) by (nonlinear_arith)
            requires
                x == d * q + r,
                r < d,
                d == 10 * unit,
                unit > 0,
                x == v + 5 * unit,
                v >= (10 * k - 5) * unit,
        ;
    }
    if v < (10 * k + 5) * unit {
        assert(q <= k) by (nonlinear_arith)
            requires
                x == d * q + r,
                r >= 0,
                d == 10 * unit,
                unit > 0,
                x == v + 5 * unit,
                v < (10 * k + 5) * unit,
        ;
    }
}

/// A usage as a bar of ten segments.
pub open spec fn usage_bar_text(percent: Double) -> Seq<char> {
    repeated('▰', filled_segments(percent)) + repeated('▱', 10 - filled_segments(percent))
}

/// A usage as a bar of ten segments.
pub fn usage_bar(percent: Double) -> (bar: String)
    ensures
        bar@ == usage_bar_text(percent),
{
    let mut filled: usize = 0;
    while filled < 10 && percent.at_least((10 * filled + 5) as u32)
        invariant
            filled <= 10,
            filled > 0 ==> percent.is_number() && percent.value() >= (10 * filled - 5) * one(),
        decreases 10 - filled,
    {
        filled += 1;
    }
    proof {
        vstd::arithmetic::power2::lemma_pow2_pos(1074);
        if percent.is_number() {
            lemma_tenth(percent.value(), one(), filled as int);
        }
    }
    let mut bar = String::new();
    push_repeated(&mut bar, '▰', filled);
    push_repeated(&mut bar, '▱', 10 - filled);
    proof {
        assert(bar@ =~= repeated('▰', filled_segments(percent)) + repeated(
            '▱',
            10 - filled_segments(percent),
        ));
    }
    bar
}

/// How far a window has run.
#[derive(Clone, Copy, Debug, PartialEq, Eq, Structural)]
pub struct PaceWindow {
    /// The seconds of the window that have passed.
    pub elapsed: i64,
    /// The length of the window in seconds.
    pub window_secs: i64,
}

/// The length of a window in seconds: five hours where it is not reported, and never less than a
/// minute. It wraps around in 64 bits.
pub open spec fn window_seconds(w: WindowLimit) -> i64 {
    let mins = match w.window_duration_mins {
        Some(m) => if m > 1 {
            m
        } else {
            1
        },
        None => 300,
    };
    mins.wrapping_mul(60)
}

/// How far a window has run at `now`. What is left of it is never more than the whole window and
/// never less than nothing.
pub open spec fn pace_at(w: WindowLimit, now: i64) -> Option<PaceWindow> {
    match w.resets_at {
        Some(reset) => {
            let whole = window_seconds(w);
            let ahead = reset.wrapping_sub(now);
            let left = if ahead < 0 {
                0
            } else if ahead > whole {
                whole
            } else {
                ahead
            };
            Some(PaceWindow { elapsed: (whole - left) as i64, window_secs: whole })
        },
        None => None,
    }
}

/// How far a window has run at `now`. The length of the window has to fit in 64 bits.
pub fn pace_window_at(limit: &WindowLimit, now: i64) -> (pace: Option<PaceWindow>)
    requires
        limit.resets_at is Some ==> window_seconds(*limit) >= 0,
    ensures
        pace == pace_at(*limit, now),
        pace is Some ==> 0 <= pace->0.elapsed <= pace->0.window_secs,
{
    let reset = match limit.resets_at {
        Some(reset) => reset,
        None => return None,
    };
    let mins: i64 = match limit.window_duration_mins {
        Some(m) => if m > 1 {
            m
        } else {
            1
        },
        None => 300,
    };
    let window_secs = mins.wrapping_mul(60);
    let ahead = reset.wrapping_sub(now);
    let seconds_left: i64 = if ahead < 0 {
        0
    } else if ahead > window_secs {
        window_secs
    } else {
        ahead
    };
    Some(PaceWindow { elapsed: window_secs - seconds_left, window_secs })
}

/// How far a window has run now. The length of the window has to fit in 64 bits.
pub fn primary_pace(limit: &WindowLimit) -> (pace: Option<PaceWindow>)
    requires
        limit.resets_at is Some ==> window_seconds(*limit) >= 0,
    ensures
        exists|now: i64|
            is_second(now) && second_was_read(now) && pace == #[trigger] pace_at(*limit, now),
{
    let now = clock_now();
    pace_window_at(limit, now.secs)
}

/// How far usage is ahead of an even pace, with its texts.
#[derive(Debug)]
pub struct Pace {
    /// How many percent usage is ahead of an even pace.
    pub ahead_percent: Double,
    /// The distance from an even pace, without its sign, as text.
    pub difference: String,
    /// The percentage that an even pace would have used by now, as text.
    pub expected: String,
}

/// What a pace says.
pub struct PaceView {
    pub ahead_percent: Double,
    pub difference: Seq<char>,
    pub expected: Seq<char>,
}

impl View for Pace {
    type V = PaceView;

    open spec fn view(&self) -> PaceView {
        PaceView {
            ahead_percent: self.ahead_percent,
            difference: self.difference@,
            expected: self.expected@,
        }
    }
}

/// What a pace says, if there is one.
pub open spec fn pace_view(pace: Option<Pace>) -> Option<PaceView> {
    match pace {
        Some(p) => Some(p@),
        None => None,
    }
}

/// A pace in words: fast from ten percent ahead, and on pace within one percent.
pub open spec fn pace_words(pace: Option<PaceView>) -> Seq<char> {
    match pace {
        Some(p) => {
            let ahead = p.ahead_percent;
            if ahead.is_number() && ahead.value() >= 10 * one() {
                "fast by "@ + p.difference + "%"@
            } else if ahead.is_number() && ahead.value() > 1 * one() {
                "ahead by "@ + p.difference + "%"@
            } else if ahead.is_number() && ahead.value() < -(1 * one()) {
                "slow by "@ + p.difference + "%"@
            } else {
                "on pace"@
            }
        },
        None => "n/a"@,
    }
}

/// A pace in words.
pub fn pace_text(pace: &Option<Pace>) -> (text: String)
    ensures
        text@ == pace_words(pace_view(*pace)),
{
    match pace {
        Some(p) => {
            let lead = if p.ahead_percent.at_least(10) {
                "fast by "
            } else if p.ahead_percent.above(1) {
                "ahead by "
            } else if p.ahead_percent.below_minus(1) {
                "slow by "
            } else {
                return "on pace".to_owned();
            };
            let mut out = lead.to_owned();
            out.append(p.difference.as_str());
            out.append("%");
            out
        },
        None => "n/a".to_owned(),
    }
}

/// A pace as a menu line: on pace within half a percent.
pub open spec fn pace_line(pace: Option<PaceView>) -> Seq<char> {
    match pace {
        Some(p) => {
            let ahead = p.ahead_percent;
            if ahead.is_number() && ahead.absolute() < half() {
                "<b>Pace:</b>  on pace"@
            } else if ahead.is_number() && ahead.value() > 0 * one() {
                "<b>Pace:</b>  "@ + p.difference + "% ↑ faster than expected"@
            } else {
                "<b>Pace:</b>  "@ + p.difference + "% ↓ slower than expected"@
            }
        },
        None => "<b>Pace:</b>  n/a"@,
    }
}

/// A pace as a menu line.
pub fn pace_delta_markup(pace: &Option<Pace>) -> (markup: String)
    ensures
        markup@ == pace_line(pace_view(*pace)),
{
    match pace {
        Some(p) => {
            if p.ahead_percent.within_half() {
                return "<b>Pace:</b>  on pace".to_owned();
            }
            let tail = if p.ahead_percent.above(0) {
                "% ↑ faster than expected"
            } else {
                "% ↓ slower than expected"
            };
            let mut out = "<b>Pace:</b>  ".to_owned();
            out.append(p.difference.as_str());
            out.append(tail);
            out
        },
        None => "<b>Pace:</b>  n/a".to_owned(),
    }
}

/// The colour of a pace: red from ten percent ahead, amber above five.
pub open spec fn pace_tint(pace: Option<PaceView>) -> Seq<char> {
    match pace {
        Some(p) => {
            let ahead = p.ahead_percent;
            if ahead.is_number() && ahead.value() >= 10 * one() {
                "#e35d5d"@
            } else if ahead.is_number() && ahead.value() > 5 * one() {
                "#e5b454"@
            } else {
                "#35c46a"@
            }
        },
        None => "#627284"@,
    }
}

/// The colour of a pace.
pub fn pace_color(pace: &Option<Pace>) -> (color: &'static str)
    ensures
        color@ == pace_tint(pace_view(*pace)),
{
    match pace {
        Some(p) => if p.ahead_percent.at_least(10) {
            "#e35d5d"
        } else if p.ahead_percent.above(5) {
            "#e5b454"
        } else {
            "#35c46a"
        },
        None => "#627284",
    }
}

/// Expired limits are never shown, and above all never as a usage of zero: what may be shown is
/// what was reported, and its primary window is open.
pub proof fn law_expired_limits_are_never_shown(limits: Option<RateLimitsView>, now: i64)
    ensures
        match shown_at(limits, now) {
            Some(shown) => limits == Some(shown) && window_open(shown.primary, now),
            None => limits is None || !window_open(limits->0.primary, now),
        },
{
}

/// Limits that are shown at one moment were shown at every earlier moment, so that once they
/// are dropped they stay dropped.
pub proof fn law_dropped_limits_stay_dropped(
    limits: Option<RateLimitsView>,
    earlier: i64,
    later: i64,
)
    requires
        earlier <= later,
        shown_at(limits, later) is Some,
    ensures
        shown_at(limits, earlier) == shown_at(limits, later),
{
}

/// A fuller window never has a shorter bar.
pub proof fn law_usage_bar_grows_with_usage(a: Double, b: Double)
    requires
        a.is_number(),
        b.is_number(),
        a.value() <= b.value(),
    ensures
        filled_segments(a) <= filled_segments(b),
{
    vstd::arithmetic::power2::lemma_pow2_pos(1074);
    vstd::arithmetic::div_mod::lemma_div_is_ordered(
        a.value() + 5 * one(),
        b.value() + 5 * one(),
        10 * one(),
    );
}

/// A window that the account service reports has each of its parts from its own member, under the
/// name with underscores or, where that is missing, under the other: the usage, the second of the
/// reset, and the length in minutes. A part that is missing is left open.
pub proof fn law_the_service_reports_each_part_of_a_window(window: JsonView, value: JsonView)
    ensures
        ({
            let w = service_window(Some(window));
            let used = match value {
                JsonView::Number(JsonNumber { real: Some(d), .. }) => d,
                _ => Double { bits: 0 },
            };
            let whole = match value {
                JsonView::Number(JsonNumber { signed: Some(n), .. }) => Some(n),
                JsonView::Number(JsonNumber { signed: None, real: Some(d), .. }) => Some(
                    d.truncated(),
                ),
                _ => None,
            };
            &&& holds(window, "used_percent"@, value) ==> w.used_percent == used
            &&& lacks(window, "used_percent"@) && holds(window, "usedPercent"@, value)
                ==> w.used_percent == used
            &&& lacks(window, "used_percent"@) && lacks(window, "usedPercent"@)
                ==> w.used_percent.bits == 0
            &&& holds(window, "resets_at"@, value) ==> w.resets_at == whole
            &&& lacks(window, "resets_at"@) && holds(window, "resetsAt"@, value) ==> w.resets_at
                == whole
            &&& lacks(window, "resets_at"@) && lacks(window, "resetsAt"@) ==> w.resets_at is None
            &&& holds(window, "window_duration_mins"@, value) ==> w.window_duration_mins == whole
            &&& lacks(window, "window_duration_mins"@) && holds(
                window,
                "windowDurationMins"@,
                value,
            ) ==> w.window_duration_mins == whole
            &&& lacks(window, "window_duration_mins"@) && lacks(window, "windowDurationMins"@)
                ==> w.window_duration_mins is None
        }),
        service_window(None).used_percent.bits == 0,
        service_window(None).resets_at is None,
        service_window(None).window_duration_mins is None,
{
    law_members_are_found_by_name(window, "used_percent"@, value);
    law_members_are_found_by_name(window, "usedPercent"@, value);
    law_members_are_found_by_name(window, "resets_at"@, value);
    law_members_are_found_by_name(window, "resetsAt"@, value);
    law_members_are_found_by_name(window, "window_duration_mins"@, value);
    law_members_are_found_by_name(window, "windowDurationMins"@, value);
    law_values_are_read_as_what_they_are(value);
}

/// A window whose length the account service gives as an integer under `windowDurationMins`, and not
/// under `window_duration_mins`, has that length, and is named after it: by five hours, by the week,
/// or by neither.
pub proof fn law_reported_windows_are_named_after_their_length(window: JsonView, number: JsonNumber)
    requires
        lacks(window, "window_duration_mins"@),
        holds(window, "windowDurationMins"@, JsonView::Number(number)),
        number.signed is Some,
    ensures
        ({
            let mins = service_window(Some(window)).window_duration_mins;
            &&& mins == number.signed
            &&& number.signed->0 == 300 ==> short_name(mins) == "5h"@ && full_name(mins) == "5h"@
            &&& number.signed->0 >= 1440 ==> short_name(mins) == "W"@ && full_name(mins)
                == "Weekly"@
            &&& number.signed->0 < 1440 && number.signed->0 != 300 ==> short_name(mins) == "lim"@
                && full_name(mins) == "Limit"@
        }),
{
    law_the_service_reports_each_part_of_a_window(window, JsonView::Number(number));
}

/// Rate limits that the account service reports have their plan and each of their windows from its
/// own member. A plan that is missing or is no text is shown as not available.
pub proof fn law_the_service_reports_each_part_of_the_limits(raw: JsonView, value: JsonView)
    ensures
        ({
            let rate = service_limits(raw);
            let plan = match value {
                JsonView::Text(t) => t,
                _ => "n/a"@,
            };
            &&& holds(raw, "primary"@, value) ==> rate.primary == service_window(Some(value))
            &&& lacks(raw, "primary"@) ==> rate.primary == service_window(None)
            &&& holds(raw, "secondary"@, value) ==> rate.secondary == service_window(Some(value))
            &&& lacks(raw, "secondary"@) ==> rate.secondary == service_window(None)
            &&& holds(raw, "planType"@, value) ==> rate.plan_type == plan
            &&& lacks(raw, "planType"@) && holds(raw, "plan_type"@, value) ==> rate.plan_type == plan
            &&& lacks(raw, "planType"@) && lacks(raw, "plan_type"@) ==> rate.plan_type == "n/a"@
        }),
{
    law_members_are_found_by_name(raw, "primary"@, value);
    law_members_are_found_by_name(raw, "secondary"@, value);
    law_members_are_found_by_name(raw, "planType"@, value);
    law_members_are_found_by_name(raw, "plan_type"@, value);
    law_values_are_read_as_what_they_are(value);
}

/// A window that a session file reports has each of its parts from its own member: the usage, the
/// second of the reset, and the length in minutes under either of its names. A part that is missing
/// is left open.
pub proof fn law_session_files_report_each_part_of_a_window(window: JsonView, value: JsonView)
    ensures
        ({
            let w = session_window(Some(window));
            let used = match value {
                JsonView::Number(JsonNumber { real: Some(d), .. }) => d,
                _ => Double { bits: 0 },
            };
            let whole = match value {
                JsonView::Number(n) => n.signed,
                _ => None,
            };
            &&& holds(window, "used_percent"@, value) ==> w.used_percent == used
            &&& lacks(window, "used_percent"@) ==> w.used_percent.bits == 0
            &&& holds(window, "resets_at"@, value) ==> w.resets_at == whole
            &&& lacks(window, "resets_at"@) ==> w.resets_at is None
            &&& holds(window, "windowDurationMins"@, value) && whole is Some
                ==> w.window_duration_mins == whole
            &&& lacks(window, "windowDurationMins"@) && holds(window, "window_duration_mins"@, value)
                ==> w.window_duration_mins == whole
            &&& lacks(window, "windowDurationMins"@) && lacks(window, "window_duration_mins"@)
                ==> w.window_duration_mins is None
        }),
        session_window(None).used_percent.bits == 0,
        session_window(None).resets_at is None,
        session_window(None).window_duration_mins is None,
{
    law_members_are_found_by_name(window, "used_percent"@, value);
    law_members_are_found_by_name(window, "resets_at"@, value);
    law_members_are_found_by_name(window, "window_duration_mins"@, value);
    law_members_are_found_by_name(window, "windowDurationMins"@, value);
    law_values_are_read_as_what_they_are(value);
}

/// Rate limits that a session file reports have their plan and each of their windows from its own
/// member. A payload without them reports none.
pub proof fn law_session_files_report_each_part_of_the_limits(
    payload: JsonView,
    raw: JsonView,
    value: JsonView,
)
    ensures
        lacks(payload, "rate_limits"@) ==> session_limits(payload) is None,
        holds(payload, "rate_limits"@, raw) ==> ({
            let rate = session_limits(payload)->0;
            let plan = match value {
                JsonView::Text(t) => t,
                _ => "n/a"@,
            };
            &&& session_limits(payload) is Some
            &&& holds(raw, "primary"@, value) ==> rate.primary == session_window(Some(value))
            &&& lacks(raw, "primary"@) ==> rate.primary == session_window(None)
            &&& holds(raw, "secondary"@, value) ==> rate.secondary == session_window(Some(value))
            &&& lacks(raw, "secondary"@) ==> rate.secondary == session_window(None)
            &&& holds(raw, "plan_type"@, value) ==> rate.plan_type == plan
            &&& lacks(raw, "plan_type"@) ==> rate.plan_type == "n/a"@
        }),
{
    law_members_are_found_by_name(payload, "rate_limits"@, raw);
    law_members_are_found_by_name(raw, "primary"@, value);
    law_members_are_found_by_name(raw, "secondary"@, value);
    law_members_are_found_by_name(raw, "plan_type"@, value);
    law_values_are_read_as_what_they_are(value);
}

/// Rate limits are shown just as they were reported while the second at which their primary window
/// resets lies ahead, and not at all from that second on, whatever the secondary window says.
pub proof fn law_limits_are_shown_until_the_primary_reset(rate: RateLimitsView, now: i64, reset: i64)
    ensures
        rate.primary.resets_at == Some(reset) && now < reset ==> shown_at(Some(rate), now) == Some(
            rate,
        ) && current_at(rate, now),
        rate.primary.resets_at == Some(reset) && now >= reset ==> shown_at(Some(rate), now) is None
            && !current_at(rate, now),
        rate.primary.resets_at is None ==> shown_at(Some(rate), now) is None && !current_at(
            rate,
            now,
        ),
        shown_at(None, now) is None,
{
}

/// A window is named after its length alone.
pub proof fn law_windows_are_named_after_their_length(mins: i64)
    ensures
        short_name(Some(300)) == "5h"@,
        full_name(Some(300)) == "5h"@,
        mins >= 1440 ==> short_name(Some(mins)) == "W"@ && full_name(Some(mins)) == "Weekly"@,
        mins < 1440 && mins != 300 ==> short_name(Some(mins)) == "lim"@ && full_name(Some(mins))
            == "Limit"@,
        short_name(None) == "lim"@,
        full_name(None) == "Limit"@,
{
}

/// A plan is shown by its own name, save for the one that has another.
pub proof fn law_plans_are_shown_by_their_name(plan: Seq<char>)
    ensures
        plan_shown("prolite"@) == "$100 Pro (Pro Lite)"@,
        plan != "prolite"@ ==> plan_shown(plan) == plan,
{
}

/// The colour of a usage is red from 85 percent up, amber from 60 percent up and green below, so
/// that it never turns back while usage grows.
pub proof fn law_colors_follow_the_usage(percent: Double)
    ensures
        percent.is_number() && percent.value() >= 85 * one() ==> usage_color(percent)
            == "#e35d5d"@,
        percent.is_number() && 60 * one() <= percent.value() < 85 * one() ==> usage_color(percent)
            == "#e5b454"@,
        percent.is_number() && percent.value() < 60 * one() ==> usage_color(percent) == "#35c46a"@,
        !percent.is_number() ==> usage_color(percent) == "#35c46a"@,
{
    vstd::arithmetic::power2::lemma_pow2_pos(1074);
}

/// The bar of a usage has ten segments, the filled ones before the others. A percentage that lies
/// less than five from `10 * k` fills `k` of them; less than five percent fills none, and 95 percent
/// or more fills all.
pub proof fn law_bars_show_the_nearest_tenth(percent: Double, k: int, i: int)
    requires
        0 <= i < 10,
    ensures
        usage_bar_text(percent).len() == 10,
        usage_bar_text(percent)[i] == (if i < filled_segments(percent) {
            '▰'
        } else {
            '▱'
        }),
        percent.is_number() && 0 <= k <= 10 && (10 * k - 5) * one() <= percent.value() < (10 * k + 5)
            * one() ==> filled_segments(percent) == k,
        percent.is_number() && percent.value() >= 95 * one() ==> filled_segments(percent) == 10,
        percent.is_number() && percent.value() < 5 * one() ==> filled_segments(percent) == 0,
        !percent.is_number() ==> filled_segments(percent) == 0,
{
    vstd::arithmetic::power2::lemma_pow2_pos(1074);
    lemma_tenth(percent.value(), one(), k);
    lemma_tenth(percent.value(), one(), 10);
    lemma_tenth(percent.value(), one(), 0);
}

/// A window that resets in `left` seconds has run for the rest of its length: a reported length
/// counts in minutes, of which there is at least one, and a length that is not reported is five
/// hours. A window that has reset has run in full, and one that resets later than its length has not
/// begun.
pub proof fn law_a_window_has_run_for_what_is_not_left(w: WindowLimit, now: i64, left: int)
    requires
        w.resets_at is Some,
        w.resets_at->0 - now == left,
        i64::MIN <= left <= i64::MAX,
        w.window_duration_mins is Some ==> w.window_duration_mins->0 <= 153_722_867_280_912_930,
    ensures
        ({
            let whole: int = match w.window_duration_mins {
                Some(m) => if m >= 1 {
                    m * 60
                } else {
                    60
                },
                None => 18000,
            };
            let pace = pace_at(w, now);
            &&& pace is Some
            &&& pace->0.window_secs == whole
            &&& 0 <= left <= whole ==> pace->0.elapsed + left == whole
            &&& left < 0 ==> pace->0.elapsed == whole
            &&& left > whole ==> pace->0.elapsed == 0
        }),
{
}

/// Where it is not known when a window resets, it has no pace.
pub proof fn law_an_unknown_window_has_no_pace(w: WindowLimit, now: i64)
    requires
        w.resets_at is None,
    ensures
        pace_at(w, now) is None,
{
}

/// A pace is fast from ten percent ahead, ahead above one, slow below minus one, and else on pace;
/// its colour is red from ten percent ahead, amber above five and green below.
pub proof fn law_paces_are_named_by_how_far_they_are_ahead(p: PaceView)
    ensures
        ({
            let v = p.ahead_percent.value();
            let words = pace_words(Some(p));
            let tint = pace_tint(Some(p));
            &&& p.ahead_percent.is_number() ==> {
                &&& v >= 10 * one() ==> words == "fast by "@ + p.difference + "%"@ && tint
                    == "#e35d5d"@
                &&& 1 * one() < v < 10 * one() ==> words == "ahead by "@ + p.difference + "%"@
                &&& -(1 * one()) <= v <= 1 * one() ==> words == "on pace"@
                &&& v < -(1 * one()) ==> words == "slow by "@ + p.difference + "%"@
                &&& 5 * one() < v < 10 * one() ==> tint == "#e5b454"@
                &&& v <= 5 * one() ==> tint == "#35c46a"@
            }
            &&& !p.ahead_percent.is_number() ==> words == "on pace"@ && tint == "#35c46a"@
        }),
        pace_words(None) == "n/a"@,
        pace_tint(None) == "#627284"@,
{
    vstd::arithmetic::power2::lemma_pow2_pos(1074);
}

/// In the menu a pace within half a percent is on pace; what lies above is faster, and what lies
/// below is slower.
pub proof fn law_the_menu_says_which_way_a_pace_goes(p: PaceView)
    requires
        p.ahead_percent.is_number(),
    ensures
        ({
            let v = p.ahead_percent.value();
            let line = pace_line(Some(p));
            &&& -half() < v < half() ==> line == "<b>Pace:</b>  on pace"@
            &&& v >= half() ==> line == "<b>Pace:</b>  "@ + p.difference
                + "% ↑ faster than expected"@
            &&& v <= -half() ==> line == "<b>Pace:</b>  "@ + p.difference
                + "% ↓ slower than expected"@
        }),
        pace_line(None) == "<b>Pace:</b>  n/a"@,
{
    vstd::arithmetic::power2::lemma_pow2_pos(1073);
}

/// A number is read from the member with the first name, and from that with the second only where the
/// first is missing. As an integer, a number that is none is cut to one.
pub proof fn law_numbers_are_read_under_either_name(
    object: JsonView,
    first: Seq<char>,
    second: Seq<char>,
    value: JsonView,
)
    ensures
        ({
            let double = match value {
                JsonView::Number(n) => n.real,
                _ => None,
            };
            let whole = match value {
                JsonView::Number(JsonNumber { signed: Some(n), .. }) => Some(n),
                JsonView::Number(JsonNumber { signed: None, real: Some(d), .. }) => Some(
                    d.truncated(),
                ),
                _ => None,
            };
            let found = holds(object, first, value) || (lacks(object, first) && holds(
                object,
                second,
                value,
            ));
            &&& found ==> number_under(object, first, second) == double
            &&& found ==> integer_under(object, first, second) == whole
            &&& lacks(object, first) && lacks(object, second) ==> number_under(
                object,
                first,
                second,
            ) is None && integer_under(object, first, second) is None
        }),
{
    law_members_are_found_by_name(object, first, value);
    law_members_are_found_by_name(object, second, value);
    law_values_are_read_as_what_they_are(value);
}

} // verus!
