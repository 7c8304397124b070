//! Moments, dates and their texts. The calendar and the clock are those of `chrono`.
use crate::text::{decimal, digit, u64_text, zero_filled};
use crate::usage::Key;
use chrono::{DateTime, Datelike, Duration, FixedOffset, Local, NaiveDate, TimeZone, Utc};
use vstd::prelude::*;
use vstd::string::*;

verus! {

/// A moment: whole seconds since the start of 1970 in UTC, and nanoseconds since the last whole
/// second. A leap second counts on from its predecessor, past a billion nanoseconds.
#[derive(Clone, Copy, Debug, PartialEq, Eq, Structural)]
pub struct TimePoint {
    pub secs: i64,
    pub nanos: u32,
}

/// A calendar day.
#[derive(Clone, Copy, Debug, PartialEq, Eq, Structural)]
pub struct Day {
    pub year: i32,
    pub month: u32,
    pub day: u32,
}

/// A calendar month.
#[derive(Clone, Copy, Debug, PartialEq, Eq, Structural)]
pub struct Month {
    pub year: i32,
    pub month: u32,
}

/// A moment and the day on which it falls in the local time zone.
#[derive(Clone, Copy, Debug, PartialEq, Eq, Structural)]
pub struct Stamp {
    pub at: TimePoint,
    pub day: Day,
}

impl View for Day {
    type V = Day;

    open spec fn view(&self) -> Day {
        *self
    }
}

impl View for Month {
    type V = Month;

    open spec fn view(&self) -> Month {
        *self
    }
}

impl Key for Day {
    fn same(&self, other: &Self) -> (r: bool) {
        *self == *other
    }

    fn duplicate(&self) -> (r: Self) {
        *self
    }
}

impl Key for Month {
    fn same(&self, other: &Self) -> (r: bool) {
        *self == *other
    }

    fn duplicate(&self) -> (r: Self) {
        *self
    }
}

impl TimePoint {
    /// Whether this moment comes after `other`.
    pub open spec fn after(self, other: TimePoint) -> bool {
        self.secs > other.secs || (self.secs == other.secs && self.nanos > other.nanos)
    }

    /// Whether this moment comes after `other`.
    pub fn is_after(&self, other: &TimePoint) -> (r: bool)
        ensures
            r == self.after(*other),
    {
        self.secs > other.secs || (self.secs == other.secs && self.nanos > other.nanos)
    }
}

impl Day {
    /// The month in which the day lies.
    pub open spec fn spec_month(self) -> Month {
        Month { year: self.year, month: self.month }
    }

    /// The month in which the day lies.
    pub fn month_of(&self) -> (m: Month)
        ensures
            m == self.spec_month(),
    {
        Month { year: self.year, month: self.month }
    }
}

/// The first and the last second that the calendar reaches: the start of the year 262144 BCE
/// and the end of the year 262142.
pub open spec fn representable(secs: i64) -> bool {
    -8334601228800 <= secs <= 8210266876799
}

/// Whether the calendar reaches `year`.
pub open spec fn valid_year(year: i32) -> bool {
    -262143 <= year <= 262142
}

/// Whether `year` has a 29 February.
pub open spec fn is_leap_year(year: int) -> bool {
    year % 4 == 0 && (year % 100 != 0 || year % 400 == 0)
}

/// The number of days in a month.
pub open spec fn days_in_month(year: int, month: int) -> int {
    if month == 2 {
        if is_leap_year(year) {
            29
        } else {
            28
        }
    } else if month == 4 || month == 6 || month == 9 || month == 11 {
        30
    } else {
        31
    }
}

/// Whether a year has such a day, however far the year lies.
pub open spec fn is_civil(d: Day) -> bool {
    1 <= d.month <= 12 && 1 <= d.day <= days_in_month(d.year as int, d.month as int)
}

/// Whether a day exists in the calendar.
pub open spec fn valid_day(d: Day) -> bool {
    valid_year(d.year) && is_civil(d)
}

/// The days from the start of the year 1 to the start of `year`.
pub open spec fn days_before_year(year: int) -> int {
    365 * (year - 1) + (year - 1) / 4 - (year - 1) / 100 + (year - 1) / 400
}

/// The days from the start of `year` to the start of `month`.
pub open spec fn days_before_month(year: int, month: int) -> int
    decreases month,
{
    if month <= 1 {
        0
    } else {
        days_before_month(year, month - 1) + days_in_month(year, month - 1)
    }
}

/// The days from the first day of 1970 to `d`.
pub open spec fn day_number(d: Day) -> int {
    days_before_year(d.year as int) + days_before_month(d.year as int, d.month as int) + d.day - 1
        - 719162
}

/// The day that lies `number` days after the first day of 1970.
pub open spec fn day_of(number: int) -> Day {
    choose|d: Day| is_civil(d) && #[trigger] day_number(d) == number
}

proof fn lemma_years_in_order(a: int, b: int)
    requires
        a < b,
    ensures
        days_before_year(a) + days_before_month(a, 13) <= days_before_year(b),
    decreases b - a,
{
    reveal_with_fuel(days_before_month, 14);
    if a + 1 < b {
        lemma_years_in_order(a, b - 1);
        lemma_years_in_order(b - 1, b);
    } else {
        let n = a - 1;
        assert((n + 1) / 4 - n / 4 == if a % 4 == 0 {
            1int
        } else {
            0
        });
        assert((n + 1) / 100 - n / 100 == if a % 100 == 0 {
            1int
        } else {
            0
        });
        assert((n + 1) / 400 - n / 400 == if a % 400 == 0 {
            1int
        } else {
            0
        });
    }
}

proof fn lemma_months_in_order(year: int, a: int, b: int)
    requires
        1 <= a < b,
    ensures
        days_before_month(year, a) + days_in_month(year, a) <= days_before_month(year, b),
    decreases b,
{
    if a + 1 < b {
        lemma_months_in_order(year, a, b - 1);
    }
}

proof fn lemma_earlier_year(a: Day, b: Day)
    requires
        is_civil(a),
        is_civil(b),
        a.year < b.year,
    ensures
        day_number(a) < day_number(b),
{
    lemma_years_in_order(a.year as int, b.year as int);
    lemma_months_in_order(a.year as int, a.month as int, 13);
    if b.month > 1 {
        lemma_months_in_order(b.year as int, 1, b.month as int);
    }
}

/// Each day has its own number, so that a number tells its day.
pub proof fn law_each_day_has_its_own_number(a: Day, b: Day)
    requires
        is_civil(a),
        is_civil(b),
        day_number(a) == day_number(b),
    ensures
        a == b,
        day_of(day_number(a)) == a,
{
    let c = day_of(day_number(a));
    assert(is_civil(c) && day_number(c) == day_number(a));
    lemma_same_number(a, b);
    lemma_same_number(a, c);
}

proof fn lemma_same_number(a: Day, b: Day)
    requires
        is_civil(a),
        is_civil(b),
        day_number(a) == day_number(b),
    ensures
        a == b,
{
    if a.year < b.year {
        lemma_earlier_year(a, b);
    } else if b.year < a.year {
        lemma_earlier_year(b, a);
    } else if a.month < b.month {
        lemma_months_in_order(a.year as int, a.month as int, b.month as int);
    } else if b.month < a.month {
        lemma_months_in_order(a.year as int, b.month as int, a.month as int);
    }
}

/// Whether the clock can show a second: it is not before 1970 and within the calendar.
pub open spec fn is_second(now: i64) -> bool {
    now >= 0 && representable(now)
}

/// Whether the clock can show a moment.
pub open spec fn is_reading(now: TimePoint) -> bool {
    is_second(now.secs) && now.nanos < 1_000_000_000
}

/// Whether a local time can differ by `offset` seconds from that of Greenwich: by less than a
/// day.
pub open spec fn is_offset(offset: i32) -> bool {
    -86400 < offset < 86400
}

/// Whether a moment can fall on a local day: it does under some offset.
pub open spec fn day_fits(at: TimePoint, d: Day) -> bool {
    valid_day(d) && (at.secs - 86399) / 86400 <= day_number(d) <= (at.secs + 86399) / 86400
}

/// The English name of a month in three letters.
pub open spec fn month_name(month: u32) -> Seq<char> {
    if month == 1 {
        "Jan"@
    } else if month == 2 {
        "Feb"@
    } else if month == 3 {
        "Mar"@
    } else if month == 4 {
        "Apr"@
    } else if month == 5 {
        "May"@
    } else if month == 6 {
        "Jun"@
    } else if month == 7 {
        "Jul"@
    } else if month == 8 {
        "Aug"@
    } else if month == 9 {
        "Sep"@
    } else if month == 10 {
        "Oct"@
    } else if month == 11 {
        "Nov"@
    } else {
        "Dec"@
    }
}

/// A year in at least four digits, with a sign before and after the years that need none.
pub open spec fn year_text(year: int) -> Seq<char> {
    if year < 0 {
        seq!['-'] + zero_filled(decimal((-year) as nat), 4)
    } else if year > 9999 {
        seq!['+'] + zero_filled(decimal(year as nat), 4)
    } else {
        zero_filled(decimal(year as nat), 4)
    }
}

/// A day as month and day of the month.
pub open spec fn month_day_text(d: Day) -> Seq<char> {
    month_name(d.month) + " "@ + decimal(d.day as nat)
}

/// The current moment, from `Utc::now` of `chrono`. It is not before 1970 and within the
/// calendar; a clock before 1970 stops the program in `chrono`.
#[verifier::external_body]
pub(crate) fn utc_now() -> (now: TimePoint)
    ensures
        is_reading(now),
{
    let now = Utc::now();
    TimePoint { secs: now.timestamp(), nanos: now.timestamp_subsec_nanos() }
}

fn asked<T, C: Fn() -> T>(clock: C) -> (answer: T)
    requires
        call_requires(clock, ()),
    ensures
        call_ensures(clock, (), answer),
{
    clock()
}

/// Whether `now` is what the clock showed when it was read.
pub closed spec fn was_read(now: TimePoint) -> bool {
    call_ensures(utc_now, (), now)
}

/// Whether `now` is the second that the clock showed when it was read.
pub closed spec fn second_was_read(now: i64) -> bool {
    exists|at: TimePoint| #[trigger] was_read(at) && at.secs == now
}

/// The current moment.
pub(crate) fn clock_now() -> (now: TimePoint)
    ensures
        is_reading(now),
        was_read(now),
        second_was_read(now.secs),
{
    let now = asked(utc_now);
    proof {
        assert(was_read(now));
    }
    now
}

/// The current moment and the local day, from `Local::now` of `chrono`. The moment is not before
/// 1970 and within the calendar. The day exists and holds the moment under an offset of less than
/// a day; which offset that is depends on the time zone of the machine.
#[verifier::external_body]
pub(crate) fn local_now() -> (now: Stamp)
    ensures
        is_reading(now.at),
        day_fits(now.at, now.day),
{
    let now = Local::now();
    Stamp {
        at: TimePoint { secs: now.timestamp(), nanos: now.timestamp_subsec_nanos() },
        day: Day { year: now.year(), month: now.month(), day: now.day() },
    }
}

/// Whether `day` is the local day that the clock showed at `now` when it was read.
pub closed spec fn day_was_read(now: TimePoint, day: Day) -> bool {
    call_ensures(local_now, (), Stamp { at: now, day })
}

/// The current moment and the local day.
pub(crate) fn local_clock_now() -> (now: Stamp)
    ensures
        is_reading(now.at),
        day_fits(now.at, now.day),
        day_was_read(now.at, now.day),
{
    asked(local_now)
}

/// The day that it is in the local time zone.
pub fn today() -> (day: Day)
    ensures
        exists|now: TimePoint|
            is_reading(now) && #[trigger] day_fits(now, day) && day_was_read(now, day),
{
    local_clock_now().day
}

/// The moment that `DateTime::parse_from_rfc3339` of `chrono` reads from a text.
pub uninterp spec fn rfc3339_moment(text: Seq<char>) -> Option<TimePoint>;

/// Reads a time stamp with `DateTime::parse_from_rfc3339` of `chrono` and brings it to the
/// local time zone with `with_timezone`. The moment depends on the text alone, and
/// [`rfc3339_moment`] names it. The day exists and holds the moment under an offset of less than
/// a day; which offset that is depends on the time zone of the machine.
#[verifier::external_body]
fn read_rfc3339(text: &str) -> (stamp: Option<Stamp>)
    ensures
        match stamp {
            Some(s) => rfc3339_moment(text@) == Some(s.at) && day_fits(s.at, s.day),
            None => rfc3339_moment(text@) is None,
        },
{
    let stamp = DateTime::parse_from_rfc3339(text).ok()?.with_timezone(&Local);
    Some(Stamp {
        at: TimePoint { secs: stamp.timestamp(), nanos: stamp.timestamp_subsec_nanos() },
        day: Day { year: stamp.year(), month: stamp.month(), day: stamp.day() },
    })
}

fn answered<'a, T, F: Fn(&'a str) -> T>(read: F, text: &'a str) -> (answer: T)
    requires
        call_requires(read, (text,)),
    ensures
        call_ensures(read, (text,), answer),
{
    read(text)
}

/// Whether `stamp` is the moment in `text` with the local day on which it falls.
pub closed spec fn stamp_was_read(text: Seq<char>, stamp: Stamp) -> bool {
    exists|raw: &str| raw@ == text && #[trigger] call_ensures(read_rfc3339, (raw,), Some(stamp))
}

/// The time stamp in `raw`, or nothing where `raw` is not one.
pub fn parse_timestamp(raw: &str) -> (stamp: Option<Stamp>)
    ensures
        match stamp {
            Some(s) => rfc3339_moment(raw@) == Some(s.at) && day_fits(s.at, s.day)
                && stamp_was_read(raw@, s),
            None => rfc3339_moment(raw@) is None,
        },
{
    answered(read_rfc3339, raw)
}

/// The whole seconds from `now` until the second `reset`, cut towards zero.
pub open spec fn whole_seconds(reset: i64, now: TimePoint) -> int {
    let nanos = (reset - now.secs) * 1_000_000_000 - now.nanos;
    if nanos >= 0 {
        nanos / 1_000_000_000
    } else {
        -((-nanos) / 1_000_000_000)
    }
}

/// The whole seconds from `now` until the second `reset`: `timestamp_opt`,
/// `signed_duration_since` and `num_seconds` of `chrono`. There is no answer exactly where the
/// calendar does not reach `reset`.
#[verifier::external_body]
fn seconds_until(reset: i64, now: TimePoint) -> (seconds: Option<i64>)
    requires
        representable(now.secs),
        now.nanos < 1_000_000_000,
    ensures
        match seconds {
            Some(s) => representable(reset) && s == whole_seconds(reset, now),
            None => !representable(reset),
        },
{
    let reset = Utc.timestamp_opt(reset, 0).single()?;
    let now = Utc.timestamp_opt(now.secs, now.nanos).single()?;
    Some(reset.signed_duration_since(now).num_seconds())
}

/// A span of seconds in its two largest units.
pub open spec fn span_text(seconds: int) -> Seq<char> {
    let days = seconds / 86_400;
    let hours = (seconds % 86_400) / 3_600;
    let minutes = (seconds % 3_600) / 60;
    if seconds <= 0 {
        "now"@
    } else if days > 0 {
        decimal(days as nat) + "d "@ + decimal(hours as nat) + "h"@
    } else if hours > 0 {
        decimal(hours as nat) + "h "@ + decimal(minutes as nat) + "m"@
    } else {
        decimal(minutes as nat) + "m"@
    }
}

/// How long it is at `now` until a window resets.
pub open spec fn reset_text_of(resets_at: Option<i64>, now: TimePoint) -> Seq<char> {
    match resets_at {
        Some(reset) => if representable(reset) {
            span_text(whole_seconds(reset, now))
        } else {
            "n/a"@
        },
        None => "n/a"@,
    }
}

fn span(seconds: i64) -> (text: String)
    ensures
        text@ == span_text(seconds as int),
{
    if seconds <= 0 {
        return "now".to_owned();
    }
    let days = (seconds / 86_400) as u64;
    let hours = ((seconds % 86_400) / 3_600) as u64;
    let minutes = ((seconds % 3_600) / 60) as u64;
    if days > 0 {
        let mut out = u64_text(days);
        out.append("d ");
        out.append(u64_text(hours).as_str());
        out.append("h");
        out
    } else if hours > 0 {
        let mut out = u64_text(hours);
        out.append("h ");
        out.append(u64_text(minutes).as_str());
        out.append("m");
        out
    } else {
        let mut out = u64_text(minutes);
        out.append("m");
        out
    }
}

/// How long it is at `now` until a window resets.
pub fn reset_text_at(resets_at: Option<i64>, now: TimePoint) -> (text: String)
    requires
        representable(now.secs),
        now.nanos < 1_000_000_000,
    ensures
        text@ == reset_text_of(resets_at, now),
{
    match resets_at {
        Some(reset) => match seconds_until(reset, now) {
            Some(seconds) => span(seconds),
            None => "n/a".to_owned(),
        },
        None => "n/a".to_owned(),
    }
}

/// How long it is until a window resets.
pub fn reset_text(resets_at: Option<i64>) -> (text: String)
    ensures
        reset_fits(resets_at, text@),
{
    let now = clock_now();
    reset_text_at(resets_at, now)
}

/// The pattern of an hour and a minute.
pub const CLOCK_PATTERN: &'static str = "%H:%M";

/// The pattern of a date and a time of day.
pub const MOMENT_PATTERN: &'static str = "%Y-%m-%d %H:%M:%S";

/// `n` in two digits.
pub open spec fn two_digits(n: int) -> Seq<char> {
    zero_filled(decimal(n as nat), 2)
}

/// The hour and the minute at `local` seconds after the start of 1970, by the local clock.
pub open spec fn clock_text(local: int) -> Seq<char> {
    two_digits(local % 86400 / 3600) + ":"@ + two_digits(local % 3600 / 60)
}

/// The date and the time of day at `local` seconds after the start of 1970, by the local clock.
pub open spec fn moment_text(local: int) -> Seq<char> {
    let d = day_of(local / 86400);
    year_text(d.year as int) + "-"@ + two_digits(d.month as int) + "-"@ + two_digits(d.day as int)
        + " "@ + clock_text(local) + ":"@ + two_digits(local % 60)
}

/// The offset of the local time zone at a second, by `timestamp_opt` of `chrono` for `Local`,
/// `offset` and `local_minus_utc`. There is one exactly where the calendar reaches the second.
/// It is less than a day; which one it is depends on the time zone of the machine.
#[verifier::external_body]
fn local_offset(secs: i64) -> (offset: Option<i32>)
    ensures
        match offset {
            Some(o) => representable(secs) && is_offset(o),
            None => !representable(secs),
        },
{
    Local.timestamp_opt(secs, 0).single().map(|at| at.offset().local_minus_utc())
}

/// A second as text under an offset: `FixedOffset::east_opt`, `timestamp_opt` and the `format` of
/// `chrono` with one of the two patterns above. There is a text exactly where the calendar
/// reaches the second, and it shows the second that lies `offset` later.
#[verifier::external_body]
fn text_at_offset(secs: i64, offset: i32, pattern: &str) -> (text: Option<String>)
    requires
        is_offset(offset),
        pattern@ == CLOCK_PATTERN@ || pattern@ == MOMENT_PATTERN@,
    ensures
        text is Some <==> representable(secs),
        text is Some && pattern@ == CLOCK_PATTERN@ ==> text->0@ == clock_text(secs + offset),
        text is Some && pattern@ == MOMENT_PATTERN@ ==> text->0@ == moment_text(secs + offset),
{
    let zone = FixedOffset::east_opt(offset)?;
    zone.timestamp_opt(secs, 0).single().map(|at| at.format(pattern).to_string())
}

fn offset_answered<F: Fn(i64) -> Option<i32>>(read: F, secs: i64) -> (answer: Option<i32>)
    requires
        call_requires(read, (secs,)),
    ensures
        call_ensures(read, (secs,), answer),
{
    read(secs)
}

/// Whether `offset` is that of the local time zone at a second. Where there is no such second, it
/// is none.
pub closed spec fn offset_was_read(secs: Option<i64>, offset: i32) -> bool {
    if secs is Some && representable(secs->0) {
        call_ensures(local_offset, (secs->0,), Some(offset))
    } else {
        offset == 0
    }
}

/// The offset of the local time zone at a second, and none where there is no such second.
pub fn offset_at(secs: Option<i64>) -> (offset: i32)
    ensures
        is_offset(offset),
        offset_was_read(secs, offset),
        secs is None || !representable(secs->0) ==> offset == 0,
{
    match secs {
        Some(secs) => match offset_answered(local_offset, secs) {
            Some(offset) => offset,
            None => 0,
        },
        None => 0,
    }
}

/// The hour and minute of a second under an offset, or `n/a` where there is no such second.
pub open spec fn clock_shown(secs: Option<i64>, offset: i32) -> Seq<char> {
    if secs is Some && representable(secs->0) {
        clock_text(secs->0 + offset)
    } else {
        "n/a"@
    }
}

/// The date and time of a second under an offset, or `n/a` where there is no such second.
pub open spec fn moment_shown(secs: Option<i64>, offset: i32) -> Seq<char> {
    if secs is Some && representable(secs->0) {
        moment_text(secs->0 + offset)
    } else {
        "n/a"@
    }
}

/// Whether `text` can say how long it is until a window resets.
pub open spec fn reset_fits(resets_at: Option<i64>, text: Seq<char>) -> bool {
    exists|now: TimePoint|
        is_reading(now) && was_read(now) && text == #[trigger] reset_text_of(resets_at, now)
}

/// The text, or `n/a` where there is none.
pub fn or_not_available(text: Option<String>) -> (shown: String)
    ensures
        shown@ == (match text {
            Some(t) => t@,
            None => "n/a"@,
        }),
{
    match text {
        Some(t) => t,
        None => "n/a".to_owned(),
    }
}

/// The hour and minute at which a window resets, under an offset.
pub fn reset_clock_text_at(resets_at: Option<i64>, offset: i32) -> (text: String)
    requires
        is_offset(offset),
    ensures
        text@ == clock_shown(resets_at, offset),
{
    match resets_at {
        Some(reset) => or_not_available(text_at_offset(reset, offset, CLOCK_PATTERN)),
        None => or_not_available(None),
    }
}

/// The local hour and minute at which a window resets, or `n/a` where it does not, or where the
/// calendar does not reach that second.
pub fn reset_clock_text(resets_at: Option<i64>) -> (text: String)
    ensures
        exists|offset: i32|
            is_offset(offset) && offset_was_read(resets_at, offset) && text@
                == #[trigger] clock_shown(resets_at, offset),
{
    let offset = offset_at(resets_at);
    reset_clock_text_at(resets_at, offset)
}

/// The date and time of a second under an offset.
pub fn fetched_at_text_at(ts: Option<i64>, offset: i32) -> (text: String)
    requires
        is_offset(offset),
    ensures
        text@ == moment_shown(ts, offset),
{
    match ts {
        Some(secs) => or_not_available(text_at_offset(secs, offset, MOMENT_PATTERN)),
        None => or_not_available(None),
    }
}

/// The local date and time of a second, or `n/a` where there is none, or where the calendar
/// does not reach it.
pub fn fetched_at_text(ts: Option<i64>) -> (text: String)
    ensures
        exists|offset: i32|
            is_offset(offset) && offset_was_read(ts, offset) && text@ == #[trigger] moment_shown(
                ts,
                offset,
            ),
{
    let offset = offset_at(ts);
    fetched_at_text_at(ts, offset)
}

/// The pattern of a month and a day.
pub const DAY_PATTERN: &'static str = "%b %-d";

/// The pattern of a month, a day and a year.
pub const DATE_PATTERN: &'static str = "%b %-d, %Y";

/// A day as text: `NaiveDate::from_ymd_opt` of `chrono` and the `format` of the two patterns
/// above. There is a text exactly where the day exists.
#[verifier::external_body]
fn day_text(day: Day, pattern: &str) -> (text: Option<String>)
    requires
        pattern@ == DAY_PATTERN@ || pattern@ == DATE_PATTERN@,
    ensures
        text is Some <==> valid_day(day),
        text is Some && pattern@ == DAY_PATTERN@ ==> text->0@ == month_day_text(day),
        text is Some && pattern@ == DATE_PATTERN@ ==> text->0@ == month_day_text(day) + ", "@
            + year_text(day.year as int),
{
    NaiveDate::from_ymd_opt(day.year, day.month, day.day).map(|d| d.format(pattern).to_string())
}

/// The last day before a month.
pub open spec fn day_before(m: Month) -> Day {
    if m.month == 1 {
        Day { year: (m.year - 1) as i32, month: 12, day: 31 }
    } else {
        Day {
            year: m.year,
            month: (m.month - 1) as u32,
            day: days_in_month(m.year as int, m.month - 1) as u32,
        }
    }
}

/// The last day before a month: `NaiveDate::from_ymd_opt` of `chrono` less `Duration::days` of
/// one. There is one exactly where the first day of the month exists.
#[verifier::external_body]
fn last_day_before(m: Month) -> (day: Option<Day>)
    requires
        !(m.year == -262143 && m.month == 1),
    ensures
        match day {
            Some(d) => valid_day(Day { year: m.year, month: m.month, day: 1 }) && d == day_before(m),
            None => !valid_day(Day { year: m.year, month: m.month, day: 1 }),
        },
{
    let end = NaiveDate::from_ymd_opt(m.year, m.month, 1)? - Duration::days(1);
    Some(Day { year: end.year(), month: end.month(), day: end.day() })
}

/// The month after `m`.
pub open spec fn next_month(m: Month) -> Month {
    if m.month == 12 {
        Month { year: (m.year + 1) as i32, month: 1 }
    } else {
        Month { year: m.year, month: (m.month + 1) as u32 }
    }
}

/// A month as its first and its last day.
pub open spec fn month_range_of(m: Month) -> Seq<char> {
    let next = next_month(m);
    if 1 <= m.month <= 12 && valid_year(m.year) && valid_year(next.year) {
        let last = Day {
            year: m.year,
            month: m.month,
            day: days_in_month(m.year as int, m.month as int) as u32,
        };
        month_name(m.month) + " 1"@ + " - "@ + month_day_text(last) + ", "@ + year_text(
            m.year as int,
        )
    } else {
        "Current month"@
    }
}

/// A month as its first and its last day.
pub fn month_range_text(m: Month) -> (text: String)
    ensures
        text@ == month_range_of(m),
{
    let start = match day_text(Day { year: m.year, month: m.month, day: 1 }, DAY_PATTERN) {
        Some(start) => start,
        None => return "Current month".to_owned(),
    };
    let next = if m.month == 12 {
        Month { year: m.year + 1, month: 1 }
    } else {
        Month { year: m.year, month: m.month + 1 }
    };
    let last = match last_day_before(next) {
        Some(last) => last,
        None => return "Current month".to_owned(),
    };
    proof {
        assert(decimal(1) == seq!['1']);
        reveal_strlit(" ");
        reveal_strlit(" 1");
        assert(" "@ + decimal(1) =~= " 1"@);
        assert(start@ =~= month_name(m.month) + " 1"@);
        assert(valid_day(last));
    }
    match day_text(last, DATE_PATTERN) {
        Some(end) => {
            let mut out = start;
            out.append(" - ");
            out.append(end.as_str());
            proof {
                assert(out@ =~= month_range_of(m));
            }
            out
        },
        None => "Current month".to_owned(),
    }
}

/// The current local month as its first and its last day.
pub fn current_month_range_text() -> (text: String)
    ensures
        exists|now: TimePoint, day: Day|
            is_reading(now) && #[trigger] day_fits(now, day) && day_was_read(now, day) && text@
                == month_range_of(day.spec_month()),
{
    let now = local_clock_now();
    month_range_text(now.day.month_of())
}

/// A moment comes after another exactly where more nanoseconds lie between 1970 and it.
pub proof fn law_moments_are_in_the_order_of_time(a: TimePoint, b: TimePoint)
    requires
        a.nanos < 1_000_000_000,
        b.nanos < 1_000_000_000,
    ensures
        a.after(b) <==> a.secs * 1_000_000_000 + a.nanos > b.secs * 1_000_000_000 + b.nanos,
{
}

/// A day lies in the month that it names.
pub proof fn law_a_day_lies_in_its_month(d: Day)
    ensures
        d.spec_month().year == d.year,
        d.spec_month().month == d.month,
{
}

/// The text of a span names its two largest units, cut to whole ones: days and hours from a day up,
/// hours and minutes from an hour up, and else minutes.
pub proof fn law_a_span_names_its_two_largest_units(seconds: int, d: nat, h: nat, m: nat)
    ensures
        seconds <= 0 ==> span_text(seconds) == "now"@,
        d >= 1 && h < 24 && d * 86400 + h * 3600 <= seconds < d * 86400 + (h + 1) * 3600
            ==> span_text(seconds) == decimal(d) + "d "@ + decimal(h) + "h"@,
        1 <= h < 24 && m < 60 && h * 3600 + m * 60 <= seconds < h * 3600 + (m + 1) * 60
            ==> span_text(seconds) == decimal(h) + "h "@ + decimal(m) + "m"@,
        m < 60 && 0 < seconds && m * 60 <= seconds < (m + 1) * 60 ==> span_text(seconds) == decimal(
            m,
        ) + "m"@,
{
}

/// How long it is until a window resets follows from the nanoseconds that are left: days and hours
/// from a day up, hours and minutes from an hour up, minutes from a second up, and nothing below.
pub proof fn law_the_time_until_a_reset_is_named(
    reset: i64,
    now: TimePoint,
    d: nat,
    h: nat,
    m: nat,
)
    requires
        representable(reset),
        now.nanos < 1_000_000_000,
    ensures
        ({
            let left = (reset - now.secs) * 1_000_000_000 - now.nanos;
            let text = reset_text_of(Some(reset), now);
            let second = 1_000_000_000int;
            &&& left < second ==> text == "now"@
            &&& d >= 1 && h < 24 && (d * 86400 + h * 3600) * second <= left < (d * 86400 + (h + 1)
                * 3600) * second ==> text == decimal(d) + "d "@ + decimal(h) + "h"@
            &&& 1 <= h < 24 && m < 60 && (h * 3600 + m * 60) * second <= left < (h * 3600 + (m + 1)
                * 60) * second ==> text == decimal(h) + "h "@ + decimal(m) + "m"@
            &&& m < 60 && second <= left && (m * 60) * second <= left < ((m + 1) * 60) * second
                ==> text == decimal(m) + "m"@
        }),
{
    law_a_span_names_its_two_largest_units(whole_seconds(reset, now), d, h, m);
}

/// Where it is not known when a window resets, or where the calendar does not reach that second,
/// there is nothing to say of it.
pub proof fn law_an_unknown_reset_has_no_time(resets_at: Option<i64>, now: TimePoint, offset: i32)
    requires
        resets_at is None || resets_at->0 < -8334601228800 || resets_at->0 > 8210266876799,
    ensures
        reset_text_of(resets_at, now) == "n/a"@,
        clock_shown(resets_at, offset) == "n/a"@,
        moment_shown(resets_at, offset) == "n/a"@,
{
}

/// The hour and minute of a second are those that its place in the local day gives: the offset is
/// added, and hours and minutes are counted from midnight in two digits each.
pub proof fn law_the_clock_shows_the_local_hour(
    secs: i64,
    offset: i32,
    days: int,
    h: nat,
    m: nat,
    rest: nat,
)
    requires
        representable(secs),
        h < 24,
        m < 60,
        rest < 60,
        secs + offset == days * 86400 + h * 3600 + m * 60 + rest,
    ensures
        clock_shown(Some(secs), offset) == seq![
            digit(h as int / 10),
            digit(h as int % 10),
            ':',
            digit(m as int / 10),
            digit(m as int % 10),
        ],
{
    reveal_strlit(":");
    lemma_two_digits(h);
    lemma_two_digits(m);
    lemma_time_of_day(secs + offset, days, h, m, rest);
    assert(clock_shown(Some(secs), offset) =~= seq![
        digit(h as int / 10),
        digit(h as int % 10),
        ':',
        digit(m as int / 10),
        digit(m as int % 10),
    ]);
}

proof fn lemma_time_of_day(local: int, days: int, h: nat, m: nat, rest: nat)
    requires
        h < 24,
        m < 60,
        rest < 60,
        local == days * 86400 + h * 3600 + m * 60 + rest,
    ensures
        local % 86400 / 3600 == h,
        local % 3600 / 60 == m,
{
    let inner = h * 3600 + m * 60 + rest;
    assert(local % 86400 == inner);
    assert(inner / 3600 == h);
    assert(local == (days * 24 + h) * 3600 + (m * 60 + rest));
    assert(local % 3600 == m * 60 + rest);
}

proof fn lemma_two_digits(n: nat)
    requires
        n < 100,
    ensures
        two_digits(n as int) == seq![digit(n as int / 10), digit(n as int % 10)],
{
    reveal_with_fuel(decimal, 3);
    reveal_with_fuel(zero_filled, 3);
    assert(two_digits(n as int) =~= seq![digit(n as int / 10), digit(n as int % 10)]);
}

/// The days of a month follow each other, and the first day of the next month follows the last, also
/// from one year to the next.
pub proof fn law_days_follow_each_other(d: Day)
    requires
        is_civil(d),
        d.year < i32::MAX,
    ensures
        ({
            let tomorrow = Day { year: d.year, month: d.month, day: (d.day + 1) as u32 };
            let next = next_month(d.spec_month());
            let first = Day { year: next.year, month: next.month, day: 1 };
            &&& is_civil(tomorrow) ==> day_number(tomorrow) == day_number(d) + 1
            &&& !is_civil(tomorrow) ==> is_civil(first) && day_number(first) == day_number(d) + 1
        }),
{
    if d.month == 12 {
        reveal_with_fuel(days_before_month, 14);
        lemma_next_year(d.year as int);
    }
}

proof fn lemma_next_year(a: int)
    ensures
        days_before_year(a + 1) == days_before_year(a) + days_before_month(a, 13),
{
    reveal_with_fuel(days_before_month, 14);
    let n = a - 1;
    assert((n + 1) / 4 - n / 4 == if a % 4 == 0 {
        1int
    } else {
        0
    });
    assert((n + 1) / 100 - n / 100 == if a % 100 == 0 {
        1int
    } else {
        0
    });
    assert((n + 1) / 400 - n / 400 == if a % 400 == 0 {
        1int
    } else {
        0
    });
}

/// The text of a month goes from its first day to its last: as many days as lie between its start
/// and that of the next month.
pub proof fn law_a_month_goes_to_its_last_day(m: Month)
    requires
        1 <= m.month <= 12,
        -262143 <= m.year < 262142,
    ensures
        ({
            let next = next_month(m);
            let start = day_number(Day { year: m.year, month: m.month, day: 1 });
            let end = day_number(Day { year: next.year, month: next.month, day: 1 });
            &&& 28 <= end - start <= 31
            &&& month_range_of(m) == month_name(m.month) + " 1"@ + " - "@ + (month_name(m.month)
                + " "@ + decimal((end - start) as nat)) + ", "@ + year_text(m.year as int)
        }),
{
    let last = Day {
        year: m.year,
        month: m.month,
        day: days_in_month(m.year as int, m.month as int) as u32,
    };
    law_days_follow_each_other(last);
}

/// What counts as read was answered by the clock, by the local clock, by the time zone and by the
/// reader of time stamps: no other moment, day, offset or stamp does.
pub(crate) proof fn law_readings_are_answers(
    now: TimePoint,
    day: Day,
    secs: i64,
    offset: i32,
    text: Seq<char>,
    stamp: Stamp,
)
    ensures
        was_read(now) ==> call_ensures(utc_now, (), now) && is_reading(now),
        second_was_read(secs) ==> exists|at: TimePoint| #[trigger] was_read(at) && at.secs == secs,
        day_was_read(now, day) ==> call_ensures(local_now, (), Stamp { at: now, day }) && day_fits(
            now,
            day,
        ),
        representable(secs) && offset_was_read(Some(secs), offset) ==> is_offset(offset),
        stamp_was_read(text, stamp) ==> rfc3339_moment(text) == Some(stamp.at) && day_fits(
            stamp.at,
            stamp.day,
        ),
{
}

/// The date and time of a second are those of its local day and of its place in that day: the offset is
/// added, and the day is counted from the first of 1970.
pub proof fn law_the_moment_is_shown_by_the_local_calendar(
    secs: i64,
    offset: i32,
    d: Day,
    h: nat,
    m: nat,
    rest: nat,
)
    requires
        representable(secs),
        is_civil(d),
        h < 24,
        m < 60,
        rest < 60,
        secs + offset == day_number(d) * 86400 + h * 3600 + m * 60 + rest,
    ensures
        moment_shown(Some(secs), offset) == year_text(d.year as int) + "-"@ + two_digits(
            d.month as int,
        ) + "-"@ + two_digits(d.day as int) + " "@ + (two_digits(h as int) + ":"@ + two_digits(
            m as int,
        )) + ":"@ + two_digits(rest as int),
{
    let local = secs + offset;
    lemma_time_of_day(local, day_number(d), h, m, rest);
    law_each_day_has_its_own_number(d, d);
    assert(local / 86400 == day_number(d));
    assert(local == ((day_number(d) * 24 + h) * 60 + m) * 60 + rest);
    assert(local % 60 == rest);
}

} // verus!
