//! The mascot in the tray: what it feels and which picture shows it.
use crate::clock::TimePoint;
use crate::double::{one, Double};
use crate::paths::{join_path, joined};
use crate::text::{
    decimal, filled_text, law_each_number_has_its_own_text, law_zeros_fill_up_from_the_left, usize_text,
    zero_filled,
};
use vstd::prelude::*;
use vstd::string::*;

verus! {

/// How long after a session was written to somebody is at work, in seconds.
pub const WORKING_SECS: u64 = 120;

/// How long after a session was written to nobody is there any more, in seconds.
pub const SLEEPING_SECS: u64 = 1800;

/// The percentage of the primary window from which on the mascot is worried.
pub const WARNING_PERCENT: u32 = 80;

/// How long the mascot is happy, in seconds.
pub const SUCCESS_HOLD_SECS: i64 = 45;

/// What the mascot feels.
#[derive(Clone, Copy, Debug, PartialEq, Eq, Structural)]
pub enum MascotState {
    Idle,
    Working,
    Success,
    Warning,
    Sleeping,
}

/// The name of a feeling.
pub open spec fn state_name(state: MascotState) -> Seq<char> {
    match state {
        MascotState::Idle => "Idle"@,
        MascotState::Working => "Working"@,
        MascotState::Success => "Success"@,
        MascotState::Warning => "Warning"@,
        MascotState::Sleeping => "Sleeping"@,
    }
}

/// A number, but at least one.
pub open spec fn at_least_one(n: usize) -> usize {
    if n == 0 {
        1
    } else {
        n
    }
}

impl MascotState {
    /// The pictures that show a feeling: from the first to before the second, of `total`
    /// pictures. Each feeling is shown by all of them.
    pub fn frame_range(self, total: usize) -> (range: (usize, usize))
        ensures
            range == (0usize, at_least_one(total)),
    {
        if total == 0 {
            (0, 1)
        } else {
            (0, total)
        }
    }

    /// The name of a feeling.
    pub fn name(&self) -> (name: &'static str)
        ensures
            name@ == state_name(*self),
    {
        match self {
            MascotState::Idle => "Idle",
            MascotState::Working => "Working",
            MascotState::Success => "Success",
            MascotState::Warning => "Warning",
            MascotState::Sleeping => "Sleeping",
        }
    }
}

/// The mascot.
#[derive(Clone, Copy, Debug, PartialEq, Eq, Structural)]
pub struct MascotRuntime {
    pub state: MascotState,
    /// The second until which the mascot is happy.
    pub success_until: Option<i64>,
    /// How much of the primary window is used, in percent.
    pub used_percent: Double,
    /// How many pictures there are.
    pub frame_count: usize,
    /// How many pictures were shown, counted round and round.
    pub icon_tick: usize,
}

/// What the clock of the machine shows: how far it stands after 1970, or how far before.
#[derive(Clone, Copy, Debug, PartialEq, Eq, Structural)]
pub enum ClockReading {
    Since { secs: u64, nanos: u32 },
    Before { secs: u64, nanos: u32 },
}

impl ClockReading {
    /// Whether the nanoseconds are less than a second.
    pub open spec fn wf(self) -> bool {
        match self {
            ClockReading::Since { nanos, .. } => nanos < 1_000_000_000,
            ClockReading::Before { nanos, .. } => nanos < 1_000_000_000,
        }
    }

    /// The moment that the clock shows.
    pub open spec fn spec_moment(self) -> TimePoint {
        match self {
            ClockReading::Since { secs, nanos } => TimePoint { secs: secs as i64, nanos },
            ClockReading::Before { secs, nanos } => if nanos == 0 {
                TimePoint { secs: 0i64.wrapping_sub(secs as i64), nanos: 0 }
            } else {
                TimePoint {
                    secs: (-1i64).wrapping_sub(secs as i64),
                    nanos: (1_000_000_000 - nanos) as u32,
                }
            },
        }
    }

    /// The moment that the clock shows.
    pub fn moment(self) -> (now: TimePoint)
        requires
            self.wf(),
        ensures
            now == self.spec_moment(),
            now.nanos < 1_000_000_000,
    {
        match self {
            ClockReading::Since { secs, nanos } => TimePoint {
                secs: #[verifier::truncate]
                (secs as i64),
                nanos,
            },
            ClockReading::Before { secs, nanos } => {
                let back: i64 = #[verifier::truncate]
                (secs as i64);
                if nanos == 0 {
                    TimePoint { secs: 0i64.wrapping_sub(back), nanos: 0 }
                } else {
                    TimePoint { secs: (-1i64).wrapping_sub(back), nanos: 1_000_000_000 - nanos }
                }
            },
        }
    }

    /// The whole seconds since 1970, and zero before.
    pub open spec fn spec_epoch_seconds(self) -> i64 {
        match self {
            ClockReading::Since { secs, .. } => secs as i64,
            ClockReading::Before { .. } => 0,
        }
    }

    /// The whole seconds since 1970, and zero before.
    pub fn epoch_seconds(self) -> (now: i64)
        ensures
            now == self.spec_epoch_seconds(),
    {
        match self {
            ClockReading::Since { secs, .. } => #[verifier::truncate]
            (secs as i64),
            ClockReading::Before { .. } => 0,
        }
    }
}

/// What the clock of the machine shows, by `UNIX_EPOCH.elapsed()` of std: the time since 1970,
/// or, from its error, the time until 1970. The nanoseconds are less than a second; nothing else
/// is said of the reading.
#[verifier::external_body]
fn system_clock() -> (reading: ClockReading)
    ensures
        reading.wf(),
{
    match std::time::UNIX_EPOCH.elapsed() {
        Ok(since) => ClockReading::Since { secs: since.as_secs(), nanos: since.subsec_nanos() },
        Err(error) => {
            let until = error.duration();
            ClockReading::Before { secs: until.as_secs(), nanos: until.subsec_nanos() }
        },
    }
}

fn asked<C: Fn() -> ClockReading>(clock: C) -> (reading: ClockReading)
    requires
        call_requires(clock, ()),
    ensures
        call_ensures(clock, (), reading),
{
    clock()
}

/// Whether `reading` is what the clock of the machine showed when it was read.
pub closed spec fn machine_showed(reading: ClockReading) -> bool {
    call_ensures(system_clock, (), reading)
}

/// Whether `now` are the whole seconds since 1970 that the clock of the machine showed when it was
/// read.
pub open spec fn machine_second(now: i64) -> bool {
    exists|reading: ClockReading|
        #[trigger] machine_showed(reading) && now == reading.spec_epoch_seconds()
}

/// Whether `now` is the moment that the clock of the machine showed when it was read.
pub open spec fn machine_moment(now: TimePoint) -> bool {
    exists|reading: ClockReading|
        #[trigger] machine_showed(reading) && now == reading.spec_moment()
}

fn machine_clock() -> (reading: ClockReading)
    ensures
        reading.wf(),
        machine_showed(reading),
{
    asked(system_clock)
}

/// The whole seconds since 1970 by the clock of the machine. The clock may show any number.
fn now_secs() -> (now: i64)
    ensures
        machine_second(now),
{
    machine_clock().epoch_seconds()
}

/// The latest of some moments.
pub open spec fn latest_of(times: Seq<TimePoint>) -> Option<TimePoint>
    decreases times.len(),
{
    if times.len() == 0 {
        None
    } else {
        let before = latest_of(times.drop_last());
        if before is None || times.last().after(before->0) {
            Some(times.last())
        } else {
            before
        }
    }
}

/// The whole seconds from `start` to `end`. There are none where `start` comes after `end`.
pub open spec fn seconds_between(start: TimePoint, end: TimePoint) -> Option<int> {
    if start.after(end) {
        None
    } else if end.nanos < start.nanos {
        Some(end.secs - start.secs - 1)
    } else {
        Some(end.secs - start.secs)
    }
}

/// The seconds since the latest of `times`, at `now`.
pub open spec fn age_at(times: Seq<TimePoint>, now: TimePoint) -> Option<int> {
    match latest_of(times) {
        Some(newest) => seconds_between(newest, now),
        None => None,
    }
}

/// What may be a number of seconds, as a mathematical number.
pub open spec fn seconds_view(age: Option<u64>) -> Option<int> {
    match age {
        Some(s) => Some(s as int),
        None => None,
    }
}

/// The seconds since the latest of `times`, at `now`. There are none where there was no write,
/// or where the latest lies in the future.
pub fn seconds_since_last_session_write_at(times: &Vec<TimePoint>, now: TimePoint) -> (age: Option<
    u64,
>)
    ensures
        seconds_view(age) == age_at(times@, now),
{
    let mut newest: Option<TimePoint> = None;
    let mut i: usize = 0;
    proof {
        assert(times@.take(0) =~= Seq::empty());
    }
    while i < times.len()
        invariant
            i <= times@.len(),
            newest == latest_of(times@.take(i as int)),
        decreases times@.len() - i,
    {
        proof {
            assert(times@.take(i + 1).drop_last() =~= times@.take(i as int));
        }
        newest = match newest {
            Some(n) => if times[i].is_after(&n) {
                Some(times[i])
            } else {
                Some(n)
            },
            None => Some(times[i]),
        };
        i += 1;
    }
    proof {
        assert(times@.take(times@.len() as int) =~= times@);
    }
    match newest {
        Some(start) => {
            if start.is_after(&now) {
                return None;
            }
            let whole: i128 = now.secs as i128 - start.secs as i128;
            if now.nanos < start.nanos {
                Some((whole - 1) as u64)
            } else {
                Some(whole as u64)
            }
        },
        None => None,
    }
}

/// The seconds since the latest of `times`, the moments at which session files were written to.
/// There are none where there was no write, or where the latest lies in the future.
pub fn seconds_since_last_session_write(times: &Vec<TimePoint>) -> (age: Option<u64>)
    ensures
        exists|now: TimePoint|
            now.nanos < 1_000_000_000 && machine_moment(now) && seconds_view(age) == #[trigger] age_at(times@, now),
{
    let now = machine_clock().moment();
    seconds_since_last_session_write_at(times, now)
}

/// What the mascot feels at `now`. `age` is the time since a session was written to, in
/// seconds.
///
/// Happiness comes first, then work, then worry. Where no session was ever written to, the
/// mascot sleeps.
pub open spec fn feeling(
    used_percent: Double,
    success_until: Option<i64>,
    now: i64,
    age: Option<u64>,
) -> MascotState {
    if success_until is Some && now < success_until->0 {
        MascotState::Success
    } else if age is Some && age->0 <= WORKING_SECS {
        MascotState::Working
    } else if used_percent.is_number() && used_percent.value() >= WARNING_PERCENT * one() {
        MascotState::Warning
    } else if age is None || age->0 >= SLEEPING_SECS {
        MascotState::Sleeping
    } else {
        MascotState::Idle
    }
}

fn still_happy(success_until: Option<i64>, now: i64) -> (r: bool)
    ensures
        r == (success_until is Some && now < success_until->0),
{
    match success_until {
        Some(until) => now < until,
        None => false,
    }
}

/// What the mascot feels at `now`.
pub fn resolve_state_at(
    used_percent: Double,
    success_until: Option<i64>,
    now: i64,
    age: Option<u64>,
) -> (state: MascotState)
    ensures
        state == feeling(used_percent, success_until, now, age),
{
    if still_happy(success_until, now) {
        return MascotState::Success;
    }
    if let Some(s) = age {
        if s <= WORKING_SECS {
            return MascotState::Working;
        }
    }
    if used_percent.at_least(WARNING_PERCENT) {
        return MascotState::Warning;
    }
    match age {
        Some(s) if s < SLEEPING_SECS => MascotState::Idle,
        _ => MascotState::Sleeping,
    }
}

/// Asks for the time since a session was written to, unless the mascot is happy at `now`.
fn ask<A: Fn() -> Option<u64>>(success_until: Option<i64>, now: i64, age: &A) -> (seconds: Option<
    u64,
>)
    requires
        call_requires(*age, ()),
    ensures
        !(success_until is Some && now < success_until->0) ==> call_ensures(*age, (), seconds),
{
    if still_happy(success_until, now) {
        None
    } else {
        (*age)()
    }
}

/// What the mascot feels now. `age` gives the time since a session was written to; it is asked
/// only where that matters.
pub fn resolve_state<A: Fn() -> Option<u64>>(
    used_percent: Double,
    success_until: Option<i64>,
    age: &A,
) -> (state: MascotState)
    requires
        call_requires(*age, ()),
    ensures
        exists|now: i64, seconds: Option<u64>|
            machine_second(now) && state == #[trigger] feeling(
                used_percent,
                success_until,
                now,
                seconds,
            ) && (!(
            state is Success) ==> call_ensures(*age, (), seconds)),
{
    let now = now_secs();
    let seconds = ask(success_until, now, age);
    resolve_state_at(used_percent, success_until, now, seconds)
}

/// Whether the happiness is over at `now`.
pub open spec fn is_over(success_until: Option<i64>, now: i64) -> bool {
    success_until is Some && now >= success_until->0
}

/// The happiness that is left at `now`.
pub open spec fn happiness_left(success_until: Option<i64>, now: i64) -> Option<i64> {
    if is_over(success_until, now) {
        None
    } else {
        success_until
    }
}

fn over(success_until: Option<i64>, now: i64) -> (r: bool)
    ensures
        r == is_over(success_until, now),
{
    match success_until {
        Some(until) => now >= until,
        None => false,
    }
}

/// The mascot after something succeeded at `now`.
pub open spec fn made_happy(mascot: MascotRuntime, now: i64) -> MascotRuntime {
    MascotRuntime {
        state: MascotState::Success,
        success_until: Some(now.wrapping_add(SUCCESS_HOLD_SECS)),
        ..mascot
    }
}

/// The mascot after it was told how much is used. The clock was read twice.
pub open spec fn told_usage(
    mascot: MascotRuntime,
    percent: Double,
    first: i64,
    second: i64,
    age: Option<u64>,
) -> MascotRuntime {
    let left = happiness_left(mascot.success_until, first);
    MascotRuntime {
        used_percent: percent,
        success_until: left,
        state: feeling(percent, left, second, age),
        ..mascot
    }
}

/// The mascot one picture later. The clock was read twice.
pub open spec fn animated(
    mascot: MascotRuntime,
    first: i64,
    second: i64,
    age: Option<u64>,
) -> MascotRuntime {
    if is_over(mascot.success_until, first) {
        MascotRuntime {
            success_until: None,
            state: feeling(mascot.used_percent, None, second, age),
            ..mascot
        }
    } else {
        mascot
    }
}

/// The number of the picture that is shown: it goes round and round from one to the number of
/// pictures.
pub open spec fn frame_number(mascot: MascotRuntime) -> int {
    mascot.icon_tick as int % at_least_one(mascot.frame_count) as int + 1
}

/// The name of the file of a picture.
pub open spec fn frame_name(number: int) -> Seq<char> {
    "f"@ + zero_filled(decimal(number as nat), 4) + ".png"@
}

/// Where the pictures are.
pub open spec fn frames_dir_of(icon_dir: Seq<char>) -> Seq<char> {
    joined(icon_dir, "mascot-gif"@)
}

/// Where the pictures are.
pub fn frames_dir(icon_dir: &str) -> (path: String)
    ensures
        path@ == frames_dir_of(icon_dir@),
{
    join_path(icon_dir, "mascot-gif")
}

/// The end of the name of the icon.
pub open spec fn suffix_of(mascot: MascotRuntime) -> Seq<char> {
    state_name(mascot.state) + "-"@ + decimal((mascot.icon_tick % 64) as nat)
}

impl MascotRuntime {
    /// An idle mascot of whom there are `frame_count` pictures.
    pub fn new(frame_count: usize) -> (mascot: MascotRuntime)
        ensures
            mascot == (MascotRuntime {
                state: MascotState::Idle,
                success_until: None,
                used_percent: Double { bits: 0 },
                frame_count,
                icon_tick: 0,
            }),
    {
        MascotRuntime {
            state: MascotState::Idle,
            success_until: None,
            used_percent: Double::zero(),
            frame_count,
            icon_tick: 0,
        }
    }
}

/// Makes the mascot happy at `now`.
pub fn notify_success_at(mascot: &mut MascotRuntime, now: i64)
    ensures
        *final(mascot) == made_happy(*old(mascot), now),
{
    mascot.success_until = Some(now.wrapping_add(SUCCESS_HOLD_SECS));
    mascot.state = MascotState::Success;
}

/// Makes the mascot happy.
pub fn notify_success(mascot: &mut MascotRuntime)
    ensures
        exists|now: i64|
            machine_second(now) && *final(mascot) == #[trigger] made_happy(*old(mascot), now),
{
    let now = now_secs();
    notify_success_at(mascot, now);
}

/// Tells the mascot how much is used, with the clock read twice and the time since a session
/// was written to.
pub fn set_used_percent_at(
    mascot: &mut MascotRuntime,
    percent: Double,
    first: i64,
    second: i64,
    age: Option<u64>,
)
    ensures
        *final(mascot) == told_usage(*old(mascot), percent, first, second, age),
{
    mascot.used_percent = percent;
    if over(mascot.success_until, first) {
        mascot.success_until = None;
    }
    mascot.state = resolve_state_at(mascot.used_percent, mascot.success_until, second, age);
}

/// Tells the mascot how much is used. `age` gives the time since a session was written to; it
/// is asked only where that matters.
pub fn set_used_percent<A: Fn() -> Option<u64>>(
    mascot: &mut MascotRuntime,
    percent: Double,
    age: &A,
)
    requires
        call_requires(*age, ()),
    ensures
        exists|first: i64, second: i64, seconds: Option<u64>|
            machine_second(first) && machine_second(second) && *final(mascot)
                == #[trigger] told_usage(
                *old(mascot),
                percent,
                first,
                second,
                seconds,
            ) && (!(final(mascot).state is Success) ==> call_ensures(*age, (), seconds)),
{
    let first = now_secs();
    let left = if over(mascot.success_until, first) {
        None
    } else {
        mascot.success_until
    };
    let second = now_secs();
    let seconds = ask(left, second, age);
    set_used_percent_at(mascot, percent, first, second, seconds);
}

/// Tells the mascot how much is used.
pub fn tick<A: Fn() -> Option<u64>>(mascot: &mut MascotRuntime, percent: Double, age: &A)
    requires
        call_requires(*age, ()),
    ensures
        exists|first: i64, second: i64, seconds: Option<u64>|
            machine_second(first) && machine_second(second) && *final(mascot)
                == #[trigger] told_usage(
                *old(mascot),
                percent,
                first,
                second,
                seconds,
            ) && (!(final(mascot).state is Success) ==> call_ensures(*age, (), seconds)),
{
    set_used_percent(mascot, percent, age);
}

/// Whether there is more than one picture.
pub open spec fn has_motion(mascot: MascotRuntime) -> bool {
    mascot.frame_count > 1
}

/// Goes on to the next picture, with the clock read twice and the time since a session was
/// written to. Returns whether there is more than one picture.
pub fn advance_frame_at(
    mascot: &mut MascotRuntime,
    first: i64,
    second: i64,
    age: Option<u64>,
) -> (moves: bool)
    ensures
        *final(mascot) == animated(*old(mascot), first, second, age),
        moves == has_motion(*old(mascot)),
        moves == (old(mascot).frame_count > 1),
{
    if over(mascot.success_until, first) {
        mascot.success_until = None;
        mascot.state = resolve_state_at(mascot.used_percent, None, second, age);
    }
    mascot.frame_count > 1
}

/// Goes on to the next picture. Returns whether there is more than one. `age` gives the time
/// since a session was written to; it is asked only where a happiness is over.
pub fn advance_frame<A: Fn() -> Option<u64>>(mascot: &mut MascotRuntime, age: &A) -> (moves: bool)
    requires
        call_requires(*age, ()),
    ensures
        exists|first: i64, second: i64, seconds: Option<u64>|
            machine_second(first) && machine_second(second) && *final(mascot)
                == #[trigger] animated(*old(mascot), first, second, seconds) && (
            is_over(old(mascot).success_until, first) ==> call_ensures(*age, (), seconds)),
        moves == has_motion(*old(mascot)),
        moves == (old(mascot).frame_count > 1),
{
    let first = now_secs();
    let second = now_secs();
    let seconds = if over(mascot.success_until, first) {
        (*age)()
    } else {
        None
    };
    advance_frame_at(mascot, first, second, seconds)
}

/// The mascot after a picture was shown.
pub open spec fn one_picture_on(mascot: MascotRuntime) -> MascotRuntime {
    MascotRuntime { icon_tick: mascot.icon_tick.wrapping_add(1), ..mascot }
}

/// The file of the picture to show. The next call gives the next picture.
pub fn current_frame_path(mascot: &mut MascotRuntime, icon_dir: &str) -> (path: String)
    ensures
        path@ == joined(frames_dir_of(icon_dir@), frame_name(frame_number(*old(mascot)))),
        *final(mascot) == one_picture_on(*old(mascot)),
        *final(mascot) == (MascotRuntime {
            icon_tick: old(mascot).icon_tick.wrapping_add(1),
            ..*old(mascot)
        }),
{
    let (start, end) = mascot.state.frame_range(mascot.frame_count);
    let shown: usize = mascot.icon_tick;
    mascot.icon_tick = shown.wrapping_add(1);
    let span: usize = end - start;
    let number: usize = start + shown % span + 1;
    let mut name = "f".to_owned();
    name.append(filled_text(number, 4).as_str());
    name.append(".png");
    let dir = frames_dir(icon_dir);
    join_path(dir.as_str(), name.as_str())
}

/// The end of the name of the icon. It differs from picture to picture, so that the tray loads
/// each.
pub fn icon_suffix(mascot: &MascotRuntime) -> (suffix: String)
    ensures
        suffix@ == suffix_of(*mascot),
{
    let mut out = mascot.state.name().to_owned();
    out.append("-");
    out.append(usize_text(mascot.icon_tick % 64).as_str());
    out
}

/// A success makes the mascot happy for its time and no longer, whatever else goes on.
pub proof fn law_success_holds(mascot: MascotRuntime, now: i64, later: i64, age: Option<u64>)
    requires
        now + SUCCESS_HOLD_SECS <= i64::MAX,
    ensures
        ({
            let happy = made_happy(mascot, now);
            &&& happy.state is Success
            &&& feeling(happy.used_percent, happy.success_until, later, age) is Success <==> later
                < now + SUCCESS_HOLD_SECS
            &&& later < now + SUCCESS_HOLD_SECS ==> animated(happy, later, later, age) == happy
            &&& later >= now + SUCCESS_HOLD_SECS ==> !(animated(
                happy,
                later,
                later,
                age,
            ).state is Success)
        }),
{
}

/// The pictures go round: each number lies within the pictures, the next picture follows, and
/// the first follows the last.
pub proof fn law_pictures_go_round(mascot: MascotRuntime)
    requires
        mascot.icon_tick < usize::MAX,
    ensures
        ({
            let count = at_least_one(mascot.frame_count) as int;
            let next = MascotRuntime { icon_tick: mascot.icon_tick.wrapping_add(1), ..mascot };
            &&& 1 <= frame_number(mascot) <= count
            &&& frame_number(mascot) < count ==> frame_number(next) == frame_number(mascot) + 1
            &&& frame_number(mascot) == count ==> frame_number(next) == 1
        }),
{
    let count = at_least_one(mascot.frame_count) as int;
    let t = mascot.icon_tick as int;
    vstd::arithmetic::div_mod::lemma_mod_bound(t, count);
    vstd::arithmetic::div_mod::lemma_fundamental_div_mod(t, count);
    let q = t / count;
    let r = t % count;
    if r + 1 < count {
        vstd::arithmetic::div_mod::lemma_fundamental_div_mod_converse(t + 1, count, q, r + 1);
    } else {
        assert(t + 1 == (q + 1) * count + 0) by (nonlinear_arith)
            requires
                t == count * q + r,
                r + 1 == count,
        ;
        assert((q + 1) * count == count * (q + 1)) by (nonlinear_arith);
        vstd::arithmetic::div_mod::lemma_fundamental_div_mod_converse(t + 1, count, q + 1, 0);
    }
}

/// Two pictures after each other never share the name of their icon, as long as the mascot
/// feels the same.
pub proof fn law_icon_name_changes_with_each_picture(mascot: MascotRuntime)
    ensures
        suffix_of(mascot) != suffix_of(
            MascotRuntime { icon_tick: mascot.icon_tick.wrapping_add(1), ..mascot },
        ),
{
    let next = MascotRuntime { icon_tick: mascot.icon_tick.wrapping_add(1), ..mascot };
    let a = (mascot.icon_tick % 64) as nat;
    let b = (next.icon_tick % 64) as nat;
    assert(usize::MAX as int % 64 == 63);
    law_each_number_has_its_own_text(a, b);
    let head = state_name(mascot.state) + "-"@;
    assert((head + decimal(a)).skip(head.len() as int) =~= decimal(a));
    assert((head + decimal(b)).skip(head.len() as int) =~= decimal(b));
}

/// The mascot is happy until the second that was set; then it works where a session was written to
/// within two minutes; then it is worried from 80 percent of the primary window on; then it sleeps
/// where no session was written to for half an hour, or ever; and else it is idle.
pub proof fn law_the_mascot_feels_in_this_order(
    used_percent: Double,
    until: Option<i64>,
    now: i64,
    age: Option<u64>,
)
    ensures
        ({
            let state = feeling(used_percent, until, now, age);
            let happy = until is Some && now < until->0;
            let works = age is Some && age->0 <= 120;
            let worried = used_percent.is_number() && used_percent.value() >= 80 * one();
            let away = age is None || age->0 >= 1800;
            &&& state is Success <==> happy
            &&& state is Working <==> !happy && works
            &&& state is Warning <==> !happy && !works && worried
            &&& state is Sleeping <==> !happy && !works && !worried && away
            &&& state is Idle <==> !happy && !works && !worried && !away
        }),
{
}

/// A success makes the mascot happy for 45 seconds; nothing else of it changes.
pub proof fn law_a_success_lasts_45_seconds(mascot: MascotRuntime, now: i64)
    requires
        now <= i64::MAX - 45,
    ensures
        ({
            let after = made_happy(mascot, now);
            &&& after.state is Success
            &&& after.success_until == Some((now + 45) as i64)
            &&& after.used_percent == mascot.used_percent
            &&& after.frame_count == mascot.frame_count
            &&& after.icon_tick == mascot.icon_tick
        }),
{
}

/// The mascot takes up how much is used and forgets a happiness that is over; what it feels follows
/// from that. Its pictures stay as they are.
pub proof fn law_the_mascot_takes_up_the_usage(
    mascot: MascotRuntime,
    percent: Double,
    first: i64,
    second: i64,
    age: Option<u64>,
)
    ensures
        ({
            let after = told_usage(mascot, percent, first, second, age);
            &&& after.used_percent == percent
            &&& mascot.success_until is Some && first >= mascot.success_until->0
                ==> after.success_until is None
            &&& mascot.success_until is None || first < mascot.success_until->0
                ==> after.success_until == mascot.success_until
            &&& after.state == feeling(percent, after.success_until, second, age)
            &&& after.frame_count == mascot.frame_count
            &&& after.icon_tick == mascot.icon_tick
        }),
        ({
            let after = animated(mascot, first, second, age);
            let over = mascot.success_until is Some && first >= mascot.success_until->0;
            &&& !over ==> after == mascot
            &&& over ==> after.success_until is None && after.state == feeling(
                mascot.used_percent,
                None,
                second,
                age,
            ) && after.used_percent == mascot.used_percent && after.frame_count
                == mascot.frame_count && after.icon_tick == mascot.icon_tick
        }),
{
}

/// The age of the sessions is that of the one written to last: no other was written to after it. It
/// counts whole seconds, cut down, and there is none where that moment lies ahead.
pub proof fn law_the_latest_write_counts(times: Seq<TimePoint>, now: TimePoint, i: int)
    requires
        now.nanos < 1_000_000_000,
        forall|k: int| 0 <= k < times.len() ==> (#[trigger] times[k]).nanos < 1_000_000_000,
    ensures
        times.len() == 0 ==> age_at(times, now) is None,
        times.len() > 0 ==> ({
            let newest = latest_of(times)->0;
            let passed = (now.secs * 1_000_000_000 + now.nanos) - (newest.secs * 1_000_000_000
                + newest.nanos);
            &&& latest_of(times) is Some
            &&& times.contains(newest)
            &&& 0 <= i < times.len() ==> times[i].secs * 1_000_000_000 + times[i].nanos
                <= newest.secs * 1_000_000_000 + newest.nanos
            &&& passed < 0 ==> age_at(times, now) is None
            &&& passed >= 0 ==> age_at(times, now) is Some && age_at(times, now)->0 * 1_000_000_000
                <= passed < (age_at(times, now)->0 + 1) * 1_000_000_000
        }),
    decreases times.len(),
{
    if times.len() > 0 {
        let front = times.drop_last();
        let last = times[times.len() - 1];
        assert forall|k: int| 0 <= k < front.len() implies (#[trigger] front[k]).nanos
            < 1_000_000_000 by {
            assert(front[k] == times[k]);
        }
        assert(last.nanos < 1_000_000_000);
        law_the_latest_write_counts(front, now, i);
        if front.len() > 0 {
            let known = latest_of(front)->0;
            let k = choose|k: int| 0 <= k < front.len() && front[k] == known;
            assert(times[k] == known);
        }
        assert(times.contains(last));
        if 0 <= i < front.len() {
            assert(front[i] == times[i]);
        }
        let newest = latest_of(times)->0;
        let n = choose|n: int| 0 <= n < times.len() && times[n] == newest;
        assert(newest.nanos < 1_000_000_000);
    }
}

/// The moment that the clock shows lies as many nanoseconds after 1970, or before it, as the clock
/// says.
pub proof fn law_the_clock_shows_its_distance_from_1970(secs: u64, nanos: u32)
    requires
        nanos < 1_000_000_000,
        secs < i64::MAX,
    ensures
        ({
            let after = ClockReading::Since { secs, nanos }.spec_moment();
            let before = ClockReading::Before { secs, nanos }.spec_moment();
            &&& after.secs * 1_000_000_000 + after.nanos == secs * 1_000_000_000 + nanos
            &&& before.secs * 1_000_000_000 + before.nanos == -(secs * 1_000_000_000 + nanos)
            &&& after.nanos < 1_000_000_000 && before.nanos < 1_000_000_000
            &&& ClockReading::Since { secs, nanos }.spec_epoch_seconds() == secs
            &&& ClockReading::Before { secs, nanos }.spec_epoch_seconds() == 0
        }),
{
}

/// A picture is a file of its own directory below that of the icons, and its name holds its number in
/// four digits.
pub proof fn law_pictures_are_named_by_their_number(icon_dir: Seq<char>, number: int)
    requires
        0 <= number < 10000,
        icon_dir.len() > 0,
        icon_dir.last() != '/',
    ensures
        frames_dir_of(icon_dir) == icon_dir + "/"@ + "mascot-gif"@,
        frame_name(number).len() == 9,
        frame_name(number) == "f"@ + zero_filled(decimal(number as nat), 4) + ".png"@,
        zero_filled(decimal(number as nat), 4).len() == 4,
{
    reveal_strlit("mascot-gif");
    reveal_strlit("f");
    reveal_strlit(".png");
    reveal_with_fuel(decimal, 5);
    law_zeros_fill_up_from_the_left(decimal(number as nat), 4);
}

/// The icon is named after what the mascot feels and after the picture, counted up to 64 and then
/// anew.
pub proof fn law_icons_are_named_after_feeling_and_picture(mascot: MascotRuntime, rounds: nat, k: nat)
    requires
        k < 64,
        mascot.icon_tick == rounds * 64 + k,
    ensures
        ({
            let name = match mascot.state {
                MascotState::Idle => "Idle"@,
                MascotState::Working => "Working"@,
                MascotState::Success => "Success"@,
                MascotState::Warning => "Warning"@,
                MascotState::Sleeping => "Sleeping"@,
            };
            suffix_of(mascot) == name + "-"@ + decimal(k)
        }),
{
}

/// The picture that is shown follows from how many were shown before: they are counted round and
/// round among all pictures, and where there is none, the first is named.
pub proof fn law_each_picture_is_shown_in_turn(mascot: MascotRuntime, rounds: nat, k: nat)
    ensures
        mascot.icon_tick < usize::MAX ==> one_picture_on(mascot).icon_tick == mascot.icon_tick + 1,
        one_picture_on(mascot).state == mascot.state,
        one_picture_on(mascot).success_until == mascot.success_until,
        one_picture_on(mascot).used_percent == mascot.used_percent,
        one_picture_on(mascot).frame_count == mascot.frame_count,
        mascot.frame_count == 0 ==> frame_number(mascot) == 1,
        k < mascot.frame_count && mascot.icon_tick == rounds * mascot.frame_count + k
            ==> frame_number(mascot) == k + 1,
{
    if k < mascot.frame_count && mascot.icon_tick == rounds * mascot.frame_count + k {
        vstd::arithmetic::div_mod::lemma_fundamental_div_mod_converse(
            mascot.icon_tick as int,
            mascot.frame_count as int,
            rounds as int,
            k as int,
        );
    }
}

/// A mascot moves exactly where it has two pictures or more.
pub proof fn law_two_pictures_make_a_motion(mascot: MascotRuntime)
    ensures
        mascot.frame_count < 2 ==> !has_motion(mascot),
        mascot.frame_count >= 2 ==> has_motion(mascot),
{
}

} // verus!
