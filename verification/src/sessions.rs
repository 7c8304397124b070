//! Session files: what their lines say and what they add up to.
use crate::clock::{
    day_fits, day_was_read, is_reading, local_clock_now, parse_timestamp, rfc3339_moment,
    stamp_was_read, Day, Month, Stamp, TimePoint,
};
use crate::json::{
    holds, json_document, lacks, law_members_are_found_by_name, law_values_are_read_as_what_they_are,
    member_of, parse_json, Json, JsonView,
};
use crate::limits::{
    limits_view, parse_rate_limits, session_limits, RateLimits, RateLimitsView,
};
use crate::text::{is_blank, is_blank_text, lines_of, same_text, split_lines};
use crate::usage::{
    added, added_model, is_added, is_updated, law_usage_adds_in_any_order, listed, no_usage, plus,
    reported_usage, usage_at, ModelTables, Usage, UsageTable,
};
use vstd::prelude::*;
use vstd::string::*;

verus! {

/// What one session file adds up to.
pub struct FileStats {
    pub total: Usage,
    pub by_model: UsageTable<String>,
    pub by_day: UsageTable<Day>,
    pub by_day_model: ModelTables<Day>,
    pub by_month: UsageTable<Month>,
    pub by_month_model: ModelTables<Month>,
    /// The latest rate limits that the file reports.
    pub rate_limits: Option<RateLimits>,
    /// The moment of the latest rate limits.
    pub latest_rate_at: Option<TimePoint>,
    pub events_seen: usize,
}

/// What the statistics of a session file say.
#[verifier::ext_equal]
pub struct FileStatsView {
    pub total: Usage,
    pub by_model: Map<Seq<char>, Usage>,
    pub by_day: Map<Day, Usage>,
    pub by_day_model: Map<Day, Map<Seq<char>, Usage>>,
    pub by_month: Map<Month, Usage>,
    pub by_month_model: Map<Month, Map<Seq<char>, Usage>>,
    pub rate_limits: Option<RateLimitsView>,
    pub latest_rate_at: Option<TimePoint>,
    pub events_seen: usize,
}

impl View for FileStats {
    type V = FileStatsView;

    open spec fn view(&self) -> FileStatsView {
        FileStatsView {
            total: self.total,
            by_model: self.by_model@,
            by_day: self.by_day@,
            by_day_model: self.by_day_model@,
            by_month: self.by_month@,
            by_month_model: self.by_month_model@,
            rate_limits: limits_view(self.rate_limits),
            latest_rate_at: self.latest_rate_at,
            events_seen: self.events_seen,
        }
    }
}

/// The statistics of an empty file.
pub open spec fn no_file_stats() -> FileStatsView {
    FileStatsView {
        total: no_usage(),
        by_model: Map::empty(),
        by_day: Map::empty(),
        by_day_model: Map::empty(),
        by_month: Map::empty(),
        by_month_model: Map::empty(),
        rate_limits: None,
        latest_rate_at: None,
        events_seen: 0,
    }
}

/// Whether `at` is later than what was the latest.
pub open spec fn is_newer(latest: Option<TimePoint>, at: TimePoint) -> bool {
    latest is None || at.after(latest->0)
}

/// Whether `at` is later than what was the latest.
pub fn newer(latest: &Option<TimePoint>, at: &TimePoint) -> (r: bool)
    ensures
        r == is_newer(*latest, *at),
{
    match latest {
        Some(l) => at.is_after(l),
        None => true,
    }
}

/// The statistics after rate limits were reported at `at`. Earlier limits do not replace later
/// ones.
pub open spec fn with_limits(
    stats: FileStatsView,
    at: TimePoint,
    limits: Option<RateLimitsView>,
) -> FileStatsView {
    if limits is Some && is_newer(stats.latest_rate_at, at) {
        FileStatsView { rate_limits: limits, latest_rate_at: Some(at), ..stats }
    } else {
        stats
    }
}

/// The statistics after `model` used tokens on `day`.
pub open spec fn with_usage(
    stats: FileStatsView,
    model: Seq<char>,
    day: Day,
    usage: Option<Usage>,
) -> FileStatsView {
    match usage {
        Some(u) => FileStatsView {
            total: plus(stats.total, u),
            by_model: added(stats.by_model, model, u),
            by_day: added(stats.by_day, day, u),
            by_day_model: added_model(stats.by_day_model, day, model, u),
            by_month: added(stats.by_month, day.spec_month(), u),
            by_month_model: added_model(stats.by_month_model, day.spec_month(), model, u),
            events_seen: stats.events_seen.wrapping_add(1),
            ..stats
        },
        None => stats,
    }
}

/// What the days of a month add up to.
pub open spec fn days_sum(days: Seq<(Day, Usage)>, m: Month) -> Usage
    decreases days.len(),
{
    if days.len() == 0 {
        no_usage()
    } else {
        let rest = days_sum(days.drop_last(), m);
        if days.last().0.spec_month() == m {
            plus(rest, days.last().1)
        } else {
            rest
        }
    }
}

proof fn lemma_days_update(days: Seq<(Day, Usage)>, i: int, u: Usage, m: Month)
    requires
        0 <= i < days.len(),
    ensures
        days_sum(days.update(i, (days[i].0, plus(days[i].1, u))), m) == (if days[i].0.spec_month()
            == m {
            plus(days_sum(days, m), u)
        } else {
            days_sum(days, m)
        }),
    decreases days.len(),
{
    let after = days.update(i, (days[i].0, plus(days[i].1, u)));
    let rest = days_sum(days.drop_last(), m);
    let last = days.last().1;
    if i == days.len() - 1 {
        assert(after.drop_last() =~= days.drop_last());
        law_usage_adds_in_any_order(rest, last, u);
    } else {
        lemma_days_update(days.drop_last(), i, u, m);
        assert(after.drop_last() =~= days.drop_last().update(i, (days[i].0, plus(days[i].1, u))));
        law_usage_adds_in_any_order(rest, u, last);
        law_usage_adds_in_any_order(rest, last, u);
        law_usage_adds_in_any_order(u, last, u);
    }
}

proof fn lemma_days_added(
    before: Seq<(Day, Usage)>,
    after: Seq<(Day, Usage)>,
    day: Day,
    u: Usage,
    m: Month,
)
    requires
        is_added(before, after, day, u),
    ensures
        days_sum(after, m) == (if day.spec_month() == m {
            plus(days_sum(before, m), u)
        } else {
            days_sum(before, m)
        }),
{
    if exists|i: int| #[trigger] is_updated(before, after, i, u) && before[i].0 == day {
        let i = choose|i: int| #[trigger] is_updated(before, after, i, u) && before[i].0 == day;
        lemma_days_update(before, i, u, m);
    } else {
        assert(after.drop_last() =~= before);
        law_usage_adds_in_any_order(u, no_usage(), no_usage());
    }
}

impl FileStats {
    /// Whether the tables are well formed and every breakdown adds up to the total.
    pub open spec fn wf(&self) -> bool {
        &&& self.by_model.wf()
        &&& self.by_day.wf()
        &&& self.by_day_model.wf()
        &&& self.by_month.wf()
        &&& self.by_month_model.wf()
        &&& self.balanced()
    }

    /// Whether every breakdown adds up: the models, the days and the months to the total, the
    /// models of each day and month to that day and month, and the days of each month to that
    /// month.
    #[verifier::opaque]
    pub open spec fn balanced(&self) -> bool {
        &&& self.by_model.sum() == self.total
        &&& self.by_day.sum() == self.total
        &&& self.by_month.sum() == self.total
        &&& forall|d: Day| #[trigger] self.by_day_model.sum_at(d) == usage_at(self.by_day@, d)
        &&& forall|m: Month|
            #[trigger] self.by_month_model.sum_at(m) == usage_at(self.by_month@, m)
        &&& forall|m: Month| #[trigger]
            days_sum(listed(self.by_day.entries@), m) == usage_at(self.by_month@, m)
    }

    /// The statistics of an empty file.
    pub fn new() -> (stats: FileStats)
        ensures
            stats.wf(),
            stats@ == no_file_stats(),
    {
        let stats = FileStats {
            total: Usage::default(),
            by_model: UsageTable::new(),
            by_day: UsageTable::new(),
            by_day_model: ModelTables::new(),
            by_month: UsageTable::new(),
            by_month_model: ModelTables::new(),
            rate_limits: None,
            latest_rate_at: None,
            events_seen: 0,
        };
        proof {
            reveal(FileStats::balanced);
        }
        stats
    }

    /// Takes up rate limits that were reported at `at`.
    pub fn record_limits(&mut self, at: TimePoint, limits: Option<RateLimits>)
        requires
            old(self).wf(),
        ensures
            final(self).wf(),
            final(self)@ == with_limits(old(self)@, at, limits_view(limits)),
    {
        proof {
            reveal(FileStats::balanced);
        }
        if let Some(limits) = limits {
            if newer(&self.latest_rate_at, &at) {
                self.latest_rate_at = Some(at);
                self.rate_limits = Some(limits);
            }
        }
    }

    /// Takes up tokens that `model` used on `day`.
    pub fn record_usage(&mut self, model: &String, day: Day, usage: Option<Usage>)
        requires
            old(self).wf(),
        ensures
            final(self).wf(),
            final(self)@ == with_usage(old(self)@, model@, day, usage),
    {
        if let Some(usage) = usage {
            let ghost before = *self;
            let month = day.month_of();
            self.events_seen = self.events_seen.wrapping_add(1);
            self.total.merge(&usage);
            self.by_model.add(model, &usage);
            self.by_day.add(&day, &usage);
            self.by_day_model.add(&day, model, &usage);
            self.by_month.add(&month, &usage);
            self.by_month_model.add(&month, model, &usage);
            proof {
                reveal(FileStats::balanced);
                assert forall|d: Day| #[trigger]
                    self.by_day_model.sum_at(d) == usage_at(self.by_day@, d) by {
                    assert(before.by_day_model.sum_at(d) == usage_at(before.by_day@, d));
                }
                assert forall|m: Month| #[trigger]
                    self.by_month_model.sum_at(m) == usage_at(self.by_month@, m) by {
                    assert(before.by_month_model.sum_at(m) == usage_at(before.by_month@, m));
                }
                assert forall|m: Month| #[trigger]
                    days_sum(listed(self.by_day.entries@), m) == usage_at(self.by_month@, m) by {
                    let days = listed(before.by_day.entries@);
                    assert(days_sum(days, m) == usage_at(before.by_month@, m));
                    lemma_days_added(days, listed(self.by_day.entries@), day, usage, m);
                }
            }
        }
    }
}

/// What a line of a session file says to the statistics.
pub enum SessionLine {
    /// Nothing.
    Ignored,
    /// The model that is used from here on.
    Model(String),
    /// A count of tokens, with rate limits where the line reports them.
    Tokens { timestamp: Option<String>, limits: Option<RateLimits>, usage: Option<Usage> },
}

/// What a line of a session file says to the statistics.
pub enum SessionLineView {
    Ignored,
    Model(Seq<char>),
    Tokens {
        timestamp: Option<Seq<char>>,
        limits: Option<RateLimitsView>,
        usage: Option<Usage>,
    },
}

impl View for SessionLine {
    type V = SessionLineView;

    open spec fn view(&self) -> SessionLineView {
        match self {
            SessionLine::Ignored => SessionLineView::Ignored,
            SessionLine::Model(name) => SessionLineView::Model(name@),
            SessionLine::Tokens { timestamp, limits, usage } => SessionLineView::Tokens {
                timestamp: crate::text::chars_of_option(*timestamp),
                limits: limits_view(*limits),
                usage: *usage,
            },
        }
    }
}

/// The text of a member, where there is one and it is a string.
pub open spec fn member_string(value: JsonView, key: Seq<char>) -> Option<Seq<char>> {
    match value.member(key) {
        Some(v) => v.as_text(),
        None => None,
    }
}

/// The token counts of an event.
pub open spec fn last_token_usage(payload: JsonView) -> Option<Usage> {
    match member_of(payload.member("info"@), "last_token_usage"@) {
        Some(v) => Some(reported_usage(v)),
        None => None,
    }
}

/// What the document on a line says to the statistics. A session or a turn names its model; an
/// event message counts tokens where its payload is a token count.
pub open spec fn line_says(document: JsonView) -> SessionLineView {
    let kind = member_string(document, "type"@);
    let payload = match document.member("payload"@) {
        Some(p) => p,
        None => JsonView::Null,
    };
    if kind == Some("session_meta"@) || kind == Some("turn_context"@) {
        match member_string(payload, "model"@) {
            Some(name) => SessionLineView::Model(name),
            None => SessionLineView::Ignored,
        }
    } else if kind == Some("event_msg"@) && member_string(payload, "type"@) == Some(
        "token_count"@,
    ) {
        SessionLineView::Tokens {
            timestamp: member_string(document, "timestamp"@),
            limits: session_limits(payload),
            usage: last_token_usage(payload),
        }
    } else {
        SessionLineView::Ignored
    }
}

fn string_member<'a>(value: &'a Json, key: &str) -> (text: Option<&'a str>)
    ensures
        crate::text::text_of_ref(text) == member_string(value@, key@),
{
    match value.get(key) {
        Some(v) => v.as_str(),
        None => None,
    }
}

fn is_text(text: Option<&str>, expected: &str) -> (r: bool)
    ensures
        r == (crate::text::text_of_ref(text) == Some(expected@)),
{
    match text {
        Some(t) => same_text(t, expected),
        None => false,
    }
}

fn token_usage(payload: &Json) -> (usage: Option<Usage>)
    ensures
        usage == last_token_usage(payload@),
{
    match payload.get("info") {
        Some(info) => match info.get("last_token_usage") {
            Some(value) => {
                let mut usage = Usage::default();
                usage.add_json(value);
                proof {
                    law_usage_adds_in_any_order(reported_usage(value@), no_usage(), no_usage());
                }
                Some(usage)
            },
            None => None,
        },
        None => None,
    }
}

/// What the document on a line says to the statistics.
pub fn read_line(document: &Json) -> (line: SessionLine)
    ensures
        line@ == line_says(document@),
{
    let kind = string_member(document, "type");
    let null = Json::Null;
    let payload = match document.get("payload") {
        Some(p) => p,
        None => &null,
    };
    if is_text(kind, "session_meta") || is_text(kind, "turn_context") {
        match string_member(payload, "model") {
            Some(name) => SessionLine::Model(name.to_owned()),
            None => SessionLine::Ignored,
        }
    } else if is_text(kind, "event_msg") && is_text(string_member(payload, "type"), "token_count") {
        SessionLine::Tokens {
            timestamp: match string_member(document, "timestamp") {
                Some(t) => Some(t.to_owned()),
                None => None,
            },
            limits: parse_rate_limits(payload),
            usage: token_usage(payload),
        }
    } else {
        SessionLine::Ignored
    }
}

/// A line as it enters the statistics: the model by its own name, and the moment of a count.
pub enum Step {
    Ignored,
    Model(Seq<char>),
    Tokens { stamp: Stamp, limits: Option<RateLimitsView>, usage: Option<Usage> },
}

/// How far a session file has been read.
pub struct Progress {
    pub model: Seq<char>,
    pub stats: FileStatsView,
}

/// Where the reading of a session file starts.
pub open spec fn start() -> Progress {
    Progress { model: "unknown"@, stats: no_file_stats() }
}

/// How far a session file has been read after one more line.
pub open spec fn advanced(at: Progress, step: Step) -> Progress {
    match step {
        Step::Ignored => at,
        Step::Model(name) => Progress { model: name, stats: at.stats },
        Step::Tokens { stamp, limits, usage } => Progress {
            model: at.model,
            stats: with_usage(
                with_limits(at.stats, stamp.at, limits),
                at.model,
                stamp.day,
                usage,
            ),
        },
    }
}

/// How far a session file has been read after some lines.
pub open spec fn progress(steps: Seq<Step>) -> Progress
    decreases steps.len(),
{
    if steps.len() == 0 {
        start()
    } else {
        advanced(progress(steps.drop_last()), steps.last())
    }
}

/// Whether a stamp can stand for the time stamp on a line: it is the moment that is written
/// there, or what the clock showed where none is written that can be read, with the local day on
/// which that moment falls.
pub open spec fn stamp_fits(timestamp: Option<Seq<char>>, stamp: Stamp) -> bool {
    &&& day_fits(stamp.at, stamp.day)
    &&& if timestamp is Some && rfc3339_moment(timestamp->0) is Some {
        Some(stamp.at) == rfc3339_moment(timestamp->0) && stamp_was_read(timestamp->0, stamp)
    } else {
        is_reading(stamp.at) && day_was_read(stamp.at, stamp.day)
    }
}

/// Whether `name` can be what `normalize` makes of the model name `raw`.
pub open spec fn name_fits<F: Fn(String) -> String>(
    normalize: F,
    raw: Seq<char>,
    name: Seq<char>,
) -> bool {
    exists|given: String, made: String|
        given@ == raw && made@ == name && #[trigger] call_ensures(normalize, (given,), made)
}

/// Whether `step` can be how `line` enters the statistics.
pub open spec fn step_fits<F: Fn(String) -> String>(
    normalize: F,
    line: Seq<char>,
    step: Step,
) -> bool {
    if is_blank_text(line) || json_document(line) is None {
        step is Ignored
    } else {
        match line_says(json_document(line)->0) {
            SessionLineView::Ignored => step is Ignored,
            SessionLineView::Model(raw) => match step {
                Step::Model(name) => name_fits(normalize, raw, name),
                _ => false,
            },
            SessionLineView::Tokens { timestamp, limits, usage } => match step {
                Step::Tokens { stamp, limits: l, usage: u } => l == limits && u == usage
                    && stamp_fits(timestamp, stamp),
                _ => false,
            },
        }
    }
}

/// Whether `steps` can be how the lines of a file enter the statistics.
pub open spec fn steps_fit<F: Fn(String) -> String>(
    normalize: F,
    lines: Seq<Seq<char>>,
    steps: Seq<Step>,
) -> bool {
    &&& steps.len() == lines.len()
    &&& forall|i: int|
        0 <= i < steps.len() ==> step_fits(normalize, lines[i], #[trigger] steps[i])
}

/// Whether the lines of a file can add up to `stats`.
pub open spec fn can_add_up_to<F: Fn(String) -> String>(
    normalize: F,
    lines: Seq<Seq<char>>,
    stats: FileStatsView,
) -> bool {
    exists|steps: Seq<Step>| #[trigger]
        steps_fit(normalize, lines, steps) && stats == progress(steps).stats
}

/// The reading of a session file.
pub struct SessionReader {
    /// The model that is used from here on.
    pub model: String,
    /// What the lines so far add up to.
    pub stats: FileStats,
}

impl View for SessionReader {
    type V = Progress;

    open spec fn view(&self) -> Progress {
        Progress { model: self.model@, stats: self.stats@ }
    }
}

impl SessionReader {
    /// The start of a file.
    pub fn new() -> (reader: SessionReader)
        ensures
            reader.stats.wf(),
            reader@ == start(),
    {
        SessionReader { model: "unknown".to_owned(), stats: FileStats::new() }
    }

    /// Takes up that `name` is used from here on.
    pub fn use_model(&mut self, name: String)
        requires
            old(self).stats.wf(),
        ensures
            final(self).stats.wf(),
            final(self)@ == advanced(old(self)@, Step::Model(name@)),
    {
        self.model = name;
    }

    /// Takes up a count of tokens.
    pub fn count(&mut self, stamp: Stamp, limits: Option<RateLimits>, usage: Option<Usage>)
        requires
            old(self).stats.wf(),
        ensures
            final(self).stats.wf(),
            final(self)@ == advanced(
                old(self)@,
                Step::Tokens { stamp, limits: limits_view(limits), usage },
            ),
    {
        self.stats.record_limits(stamp.at, limits);
        self.stats.record_usage(&self.model, stamp.day, usage);
    }
}

/// The moment on a line: the one that is written there, or the current one.
fn stamp_of(timestamp: Option<String>) -> (stamp: Stamp)
    ensures
        stamp_fits(crate::text::chars_of_option(timestamp), stamp),
{
    match timestamp {
        Some(raw) => match parse_timestamp(raw.as_str()) {
            Some(stamp) => stamp,
            None => local_clock_now(),
        },
        None => local_clock_now(),
    }
}

/// What the lines of a session file add up to. `normalize` gives each model the name under
/// which it is counted.
///
/// Lines that are blank, that are not JSON, or that are about something else are passed over. A
/// count without a readable time stamp falls on the current moment.
pub fn parse_file_stats<F: Fn(String) -> String>(content: &str, normalize: &F) -> (stats: FileStats)
    requires
        forall|name: String| call_requires(*normalize, (name,)),
    ensures
        stats.wf(),
        can_add_up_to(*normalize, lines_of(content@), stats@),
{
    let lines = split_lines(content);
    let ghost texts = lines_of(content@);
    let mut reader = SessionReader::new();
    let ghost mut steps: Seq<Step> = Seq::empty();
    let mut i: usize = 0;
    proof {
        assert forall|j: int| 0 <= j < lines@.len() implies texts[j] == (#[trigger] lines@[j])@ by {
            assert(lines@.map_values(|line: String| line@)[j] == lines@[j]@);
        }
        assert(texts.len() == lines@.len());
    }
    while i < lines.len()
        invariant
            i <= lines@.len(),
            texts.len() == lines@.len(),
            forall|j: int| 0 <= j < lines@.len() ==> texts[j] == (#[trigger] lines@[j])@,
            forall|name: String| call_requires(*normalize, (name,)),
            reader.stats.wf(),
            steps.len() == i,
            forall|j: int|
                0 <= j < steps.len() ==> step_fits(*normalize, texts[j], #[trigger] steps[j]),
            progress(steps) == reader@,
        decreases lines@.len() - i,
    {
        let ghost before = steps;
        let ghost mut step: Step = Step::Ignored;
        if !is_blank(lines[i].as_str()) {
            if let Some(document) = parse_json(lines[i].as_str()) {
                match read_line(&document) {
                    SessionLine::Ignored => {},
                    SessionLine::Model(raw) => {
                        let ghost given = raw;
                        let name = (*normalize)(raw);
                        proof {
                            step = Step::Model(name@);
                            assert(call_ensures(*normalize, (given,), name));
                            assert(name_fits(*normalize, given@, name@));
                        }
                        reader.use_model(name);
                    },
                    SessionLine::Tokens { timestamp, limits, usage } => {
                        let stamp = stamp_of(timestamp);
                        proof {
                            step = Step::Tokens { stamp, limits: limits_view(limits), usage };
                        }
                        reader.count(stamp, limits, usage);
                    },
                }
            }
        }
        proof {
            steps = before.push(step);
            assert(steps.drop_last() =~= before);
            assert(step_fits(*normalize, texts[i as int], step));
            assert forall|j: int| 0 <= j < steps.len() implies step_fits(
                *normalize,
                texts[j],
                #[trigger] steps[j],
            ) by {
                if j < before.len() {
                    assert(steps[j] == before[j]);
                }
            }
        }
        i += 1;
    }
    proof {
        assert(steps_fit(*normalize, texts, steps));
    }
    reader.stats
}

/// The tokens that a line adds.
pub open spec fn tokens_of(step: Step) -> Usage {
    match step {
        Step::Tokens { usage: Some(u), .. } => u,
        _ => no_usage(),
    }
}

/// The tokens that some lines add.
pub open spec fn all_tokens(steps: Seq<Step>) -> Usage
    decreases steps.len(),
{
    if steps.len() == 0 {
        no_usage()
    } else {
        plus(all_tokens(steps.drop_last()), tokens_of(steps.last()))
    }
}

/// The total of a file is what its lines add, whatever the models and the days.
pub proof fn law_total_is_what_the_lines_add(steps: Seq<Step>)
    ensures
        progress(steps).stats.total == all_tokens(steps),
    decreases steps.len(),
{
    if steps.len() > 0 {
        law_total_is_what_the_lines_add(steps.drop_last());
        law_usage_adds_in_any_order(all_tokens(steps.drop_last()), no_usage(), no_usage());
    }
}

/// Whether a line says nothing to the statistics: it is blank, it is no JSON document, or it is
/// about something else.
pub open spec fn is_ignored(line: Seq<char>) -> bool {
    is_blank_text(line) || json_document(line) is None || line_says(
        json_document(line)->0,
    ) is Ignored
}

/// The lines that say something to the statistics.
pub open spec fn counted_lines(lines: Seq<Seq<char>>) -> Seq<Seq<char>> {
    lines.filter(|line: Seq<char>| !is_ignored(line))
}

/// The steps of a list of lines that say something to the statistics, out of those of all lines.
spec fn counted_steps(lines: Seq<Seq<char>>, steps: Seq<Step>) -> Seq<Step>
    decreases lines.len(),
{
    if lines.len() == 0 {
        Seq::empty()
    } else {
        let rest = counted_steps(lines.drop_last(), steps.drop_last());
        if is_ignored(lines.last()) {
            rest
        } else {
            rest.push(steps.last())
        }
    }
}

/// The steps of all lines, out of those of the lines that say something to the statistics.
spec fn all_steps(lines: Seq<Seq<char>>, counted: Seq<Step>) -> Seq<Step>
    decreases lines.len(),
{
    if lines.len() == 0 {
        Seq::empty()
    } else if is_ignored(lines.last()) {
        all_steps(lines.drop_last(), counted).push(Step::Ignored)
    } else {
        all_steps(lines.drop_last(), counted.drop_last()).push(counted.last())
    }
}

proof fn lemma_fit_last<F: Fn(String) -> String>(
    normalize: F,
    lines: Seq<Seq<char>>,
    steps: Seq<Step>,
)
    requires
        lines.len() > 0,
    ensures
        steps_fit(normalize, lines, steps) <==> steps.len() > 0 && steps_fit(
            normalize,
            lines.drop_last(),
            steps.drop_last(),
        ) && step_fits(normalize, lines.last(), steps.last()),
{
    let l = lines.drop_last();
    if steps_fit(normalize, lines, steps) {
        let s = steps.drop_last();
        assert forall|i: int| 0 <= i < s.len() implies step_fits(
            normalize,
            l[i],
            #[trigger] s[i],
        ) by {
            assert(s[i] == steps[i] && l[i] == lines[i]);
        }
        assert(step_fits(normalize, lines[steps.len() - 1], steps[steps.len() - 1]));
    }
    if steps.len() > 0 && steps_fit(normalize, l, steps.drop_last()) && step_fits(
        normalize,
        lines.last(),
        steps.last(),
    ) {
        let s = steps.drop_last();
        assert forall|i: int| 0 <= i < steps.len() implies step_fits(
            normalize,
            lines[i],
            #[trigger] steps[i],
        ) by {
            if i < s.len() {
                assert(s[i] == steps[i] && l[i] == lines[i]);
            }
        }
    }
}

proof fn lemma_counted<F: Fn(String) -> String>(
    normalize: F,
    lines: Seq<Seq<char>>,
    steps: Seq<Step>,
)
    requires
        steps_fit(normalize, lines, steps),
    ensures
        steps_fit(normalize, counted_lines(lines), counted_steps(lines, steps)),
        progress(counted_steps(lines, steps)) == progress(steps),
    decreases lines.len(),
{
    reveal(Seq::filter);
    if lines.len() > 0 {
        lemma_fit_last(normalize, lines, steps);
        lemma_counted(normalize, lines.drop_last(), steps.drop_last());
        if !is_ignored(lines.last()) {
            let shorter = counted_lines(lines.drop_last());
            let kept = counted_steps(lines.drop_last(), steps.drop_last());
            assert(shorter.push(lines.last()).drop_last() =~= shorter);
            assert(kept.push(steps.last()).drop_last() =~= kept);
            lemma_fit_last(normalize, shorter.push(lines.last()), kept.push(steps.last()));
        }
    } else {
        assert(steps =~= Seq::empty());
    }
}

proof fn lemma_uncounted<F: Fn(String) -> String>(
    normalize: F,
    lines: Seq<Seq<char>>,
    counted: Seq<Step>,
)
    requires
        steps_fit(normalize, counted_lines(lines), counted),
    ensures
        steps_fit(normalize, lines, all_steps(lines, counted)),
        progress(all_steps(lines, counted)) == progress(counted),
    decreases lines.len(),
{
    reveal(Seq::filter);
    if lines.len() > 0 {
        let front = lines.drop_last();
        let shorter = counted_lines(front);
        if is_ignored(lines.last()) {
            lemma_uncounted(normalize, front, counted);
            let rest = all_steps(front, counted);
            assert(rest.push(Step::Ignored).drop_last() =~= rest);
            lemma_fit_last(normalize, lines, rest.push(Step::Ignored));
        } else {
            assert(shorter.push(lines.last()).drop_last() =~= shorter);
            lemma_fit_last(normalize, shorter.push(lines.last()), counted);
            lemma_uncounted(normalize, front, counted.drop_last());
            let rest = all_steps(front, counted.drop_last());
            assert(rest.push(counted.last()).drop_last() =~= rest);
            lemma_fit_last(normalize, lines, rest.push(counted.last()));
        }
    } else {
        assert(counted =~= Seq::empty());
    }
}

/// Lines that are blank, that are no JSON document or that are about something else change
/// nothing, wherever they stand: files that are alike but for such lines add up to the same.
pub proof fn law_ignored_lines_change_nothing<F: Fn(String) -> String>(
    normalize: F,
    lines: Seq<Seq<char>>,
    other: Seq<Seq<char>>,
    stats: FileStatsView,
)
    requires
        counted_lines(lines) == counted_lines(other),
    ensures
        can_add_up_to(normalize, lines, stats) <==> can_add_up_to(normalize, other, stats),
{
    lemma_same_sums(normalize, lines, other, stats);
    lemma_same_sums(normalize, other, lines, stats);
}

proof fn lemma_same_sums<F: Fn(String) -> String>(
    normalize: F,
    lines: Seq<Seq<char>>,
    other: Seq<Seq<char>>,
    stats: FileStatsView,
)
    requires
        counted_lines(lines) == counted_lines(other),
    ensures
        can_add_up_to(normalize, lines, stats) ==> can_add_up_to(normalize, other, stats),
{
    if can_add_up_to(normalize, lines, stats) {
        let steps = choose|steps: Seq<Step>| #[trigger]
            steps_fit(normalize, lines, steps) && stats == progress(steps).stats;
        lemma_counted(normalize, lines, steps);
        lemma_uncounted(normalize, other, counted_steps(lines, steps));
    }
}

/// Whether a line reports `limits` at `at`.
pub open spec fn reports(step: Step, at: TimePoint, limits: RateLimitsView) -> bool {
    match step {
        Step::Tokens { stamp, limits: Some(l), .. } => stamp.at == at && l == limits,
        _ => false,
    }
}

/// Whether a line reports limits at a moment before `at`, or none at all.
pub open spec fn reports_before(step: Step, at: TimePoint) -> bool {
    match step {
        Step::Tokens { stamp, limits: Some(_), .. } => at.after(stamp.at),
        _ => true,
    }
}

/// Whether the line at `i` is the first of the latest reports: those before it report earlier
/// moments, and those after it no later ones.
pub open spec fn is_latest_report(
    steps: Seq<Step>,
    i: int,
    at: TimePoint,
    limits: RateLimitsView,
) -> bool {
    &&& 0 <= i < steps.len()
    &&& reports(steps[i], at, limits)
    &&& forall|j: int| 0 <= j < i ==> reports_before(#[trigger] steps[j], at)
}

/// The rate limits of a file are those of its latest report, and of the first where several
/// report the same moment. No line reports any at a later moment. There are none exactly where no
/// line reports any.
pub proof fn law_latest_report_wins(steps: Seq<Step>)
    ensures
        ({
            let stats = progress(steps).stats;
            &&& stats.latest_rate_at is Some <==> stats.rate_limits is Some
            &&& stats.rate_limits is Some ==> exists|i: int| #[trigger]
                is_latest_report(steps, i, stats.latest_rate_at->0, stats.rate_limits->0)
            &&& forall|i: int, at: TimePoint, limits: RateLimitsView|
                0 <= i < steps.len() && #[trigger] reports(steps[i], at, limits)
                    ==> stats.latest_rate_at is Some && !at.after(stats.latest_rate_at->0)
        }),
    decreases steps.len(),
{
    if steps.len() > 0 {
        let front = steps.drop_last();
        law_latest_report_wins(front);
        let before = progress(front).stats;
        let stats = progress(steps).stats;
        let last = steps.len() - 1;
        if stats.rate_limits is Some {
            let at = stats.latest_rate_at->0;
            let limits = stats.rate_limits->0;
            if steps[last] is Tokens && steps[last]->limits is Some && is_newer(
                before.latest_rate_at,
                steps[last]->stamp.at,
            ) {
                assert forall|j: int| 0 <= j < last implies reports_before(
                    #[trigger] steps[j],
                    at,
                ) by {
                    assert(steps[j] == front[j]);
                    match front[j] {
                        Step::Tokens { stamp, limits: Some(l), .. } => {
                            assert(reports(front[j], stamp.at, l));
                        },
                        _ => {},
                    }
                }
                assert(is_latest_report(steps, last, at, limits));
            } else {
                let i = choose|i: int| #[trigger] is_latest_report(front, i, at, limits);
                assert forall|j: int| 0 <= j < i implies reports_before(
                    #[trigger] steps[j],
                    at,
                ) by {
                    assert(steps[j] == front[j]);
                }
                assert(steps[i] == front[i]);
                assert(is_latest_report(steps, i, at, limits));
            }
        }
        assert forall|i: int, at: TimePoint, limits: RateLimitsView|
            0 <= i < steps.len() && #[trigger] reports(steps[i], at, limits) implies
            stats.latest_rate_at is Some && !at.after(stats.latest_rate_at->0) by {
            if i < last {
                assert(steps[i] == front[i]);
                assert(reports(front[i], at, limits));
            }
        }
    }
}

/// An event message with a token count says its time stamp, the rate limits in its payload, and the
/// counts that stand under `info` and `last_token_usage`.
pub proof fn law_token_counts_are_read_from_event_messages(
    document: JsonView,
    payload: JsonView,
    stamp: JsonView,
    info: JsonView,
    report: JsonView,
)
    requires
        holds(document, "type"@, JsonView::Text("event_msg"@)),
        holds(document, "payload"@, payload),
        holds(payload, "type"@, JsonView::Text("token_count"@)),
    ensures
        match line_says(document) {
            SessionLineView::Tokens { timestamp, limits, usage } => {
                &&& holds(document, "timestamp"@, stamp) ==> timestamp == (match stamp {
                    JsonView::Text(t) => Some(t),
                    _ => None,
                })
                &&& lacks(document, "timestamp"@) ==> timestamp is None
                &&& limits == session_limits(payload)
                &&& holds(payload, "info"@, info) && holds(info, "last_token_usage"@, report)
                    ==> usage == Some(reported_usage(report))
                &&& holds(payload, "info"@, info) && lacks(info, "last_token_usage"@)
                    ==> usage is None
                &&& lacks(payload, "info"@) ==> usage is None
            },
            _ => false,
        },
{
    reveal_strlit("event_msg");
    reveal_strlit("session_meta");
    reveal_strlit("turn_context");
    assert("event_msg"@.len() != "session_meta"@.len());
    assert("event_msg"@.len() != "turn_context"@.len());
    law_members_are_found_by_name(document, "type"@, JsonView::Text("event_msg"@));
    law_members_are_found_by_name(document, "payload"@, payload);
    law_members_are_found_by_name(payload, "type"@, JsonView::Text("token_count"@));
    law_members_are_found_by_name(document, "timestamp"@, stamp);
    law_members_are_found_by_name(payload, "info"@, info);
    law_members_are_found_by_name(info, "last_token_usage"@, report);
    law_values_are_read_as_what_they_are(stamp);
}

/// A session and a turn say the model that stands in their payload, and nothing where there is none.
pub proof fn law_sessions_and_turns_name_their_model(
    document: JsonView,
    kind: Seq<char>,
    payload: JsonView,
    model: JsonView,
)
    requires
        kind == "session_meta"@ || kind == "turn_context"@,
        holds(document, "type"@, JsonView::Text(kind)),
        holds(document, "payload"@, payload),
    ensures
        holds(payload, "model"@, model) ==> line_says(document) == (match model {
            JsonView::Text(name) => SessionLineView::Model(name),
            _ => SessionLineView::Ignored,
        }),
        lacks(payload, "model"@) ==> line_says(document) is Ignored,
{
    law_members_are_found_by_name(document, "type"@, JsonView::Text(kind));
    law_members_are_found_by_name(document, "payload"@, payload);
    law_members_are_found_by_name(payload, "model"@, model);
    law_values_are_read_as_what_they_are(model);
}

/// Lines of any other kind say nothing, and neither do event messages of another type.
pub proof fn law_other_lines_say_nothing(document: JsonView, kind: JsonView, payload: JsonView)
    ensures
        lacks(document, "type"@) ==> line_says(document) is Ignored,
        holds(document, "type"@, kind) && kind != JsonView::Text("session_meta"@) && kind
            != JsonView::Text("turn_context"@) && kind != JsonView::Text("event_msg"@)
            ==> line_says(document) is Ignored,
        holds(document, "type"@, JsonView::Text("event_msg"@)) && holds(
            document,
            "payload"@,
            payload,
        ) && !holds(payload, "type"@, JsonView::Text("token_count"@)) ==> line_says(
            document,
        ) is Ignored,
{
    reveal_strlit("event_msg");
    reveal_strlit("session_meta");
    reveal_strlit("turn_context");
    assert("event_msg"@.len() != "session_meta"@.len());
    assert("event_msg"@.len() != "turn_context"@.len());
    law_members_are_found_by_name(document, "type"@, kind);
    law_members_are_found_by_name(document, "type"@, JsonView::Text("event_msg"@));
    law_members_are_found_by_name(document, "payload"@, payload);
    law_values_are_read_as_what_they_are(kind);
    if !holds(payload, "type"@, JsonView::Text("token_count"@)) {
        lemma_not_held(payload, "type"@, JsonView::Text("token_count"@));
    }
}

proof fn lemma_not_held(object: JsonView, key: Seq<char>, value: JsonView)
    requires
        !holds(object, key, value),
    ensures
        object.member(key) != Some(value),
{
    if object.member(key) == Some(value) {
        crate::json::law_found_members_are_held(object, key);
    }
}

/// Tokens count in total, for the model that was named last, for the day on which they were used and
/// for the month in which that day lies: each grows by just as much, and nothing else changes. They
/// count as one event.
pub proof fn law_tokens_count_for_their_model_day_and_month(
    steps: Seq<Step>,
    stamp: Stamp,
    limits: Option<RateLimitsView>,
    u: Usage,
)
    ensures
        ({
            let before = progress(steps);
            let step = Step::Tokens { stamp, limits, usage: Some(u) };
            let after = progress(steps.push(step));
            let model = before.model;
            let month = Month { year: stamp.day.year, month: stamp.day.month };
            &&& after.model == model
            &&& after.stats.total == plus(before.stats.total, u)
            &&& after.stats.by_model == added(before.stats.by_model, model, u)
            &&& after.stats.by_day == added(before.stats.by_day, stamp.day, u)
            &&& after.stats.by_month == added(before.stats.by_month, month, u)
            &&& after.stats.by_day_model == added_model(
                before.stats.by_day_model,
                stamp.day,
                model,
                u,
            )
            &&& after.stats.by_month_model == added_model(
                before.stats.by_month_model,
                month,
                model,
                u,
            )
            &&& before.stats.events_seen < usize::MAX ==> after.stats.events_seen
                == before.stats.events_seen + 1
        }),
{
    let step = Step::Tokens { stamp, limits, usage: Some(u) };
    assert(steps.push(step).drop_last() =~= steps);
}

/// A line without counts changes none: it can only name the model from there on, or report rate
/// limits.
pub proof fn law_lines_without_counts_change_none(steps: Seq<Step>, step: Step)
    requires
        step is Tokens ==> step->usage is None,
    ensures
        ({
            let before = progress(steps);
            let after = progress(steps.push(step));
            &&& after.model == (match step {
                Step::Model(name) => name,
                _ => before.model,
            })
            &&& after.stats.total == before.stats.total
            &&& after.stats.by_model == before.stats.by_model
            &&& after.stats.by_day == before.stats.by_day
            &&& after.stats.by_day_model == before.stats.by_day_model
            &&& after.stats.by_month == before.stats.by_month
            &&& after.stats.by_month_model == before.stats.by_month_model
            &&& after.stats.events_seen == before.stats.events_seen
            &&& !(step is Tokens && step->limits is Some) ==> after.stats.rate_limits
                == before.stats.rate_limits && after.stats.latest_rate_at
                == before.stats.latest_rate_at
        }),
        progress(Seq::empty()).model == "unknown"@,
        progress(Seq::empty()).stats.total == no_usage(),
        progress(Seq::empty()).stats.events_seen == 0,
{
    assert(steps.push(step).drop_last() =~= steps);
}

/// Rate limits that a line reports replace those that are known exactly where there are none or where
/// they are from a later moment.
pub proof fn law_later_reports_replace_earlier_ones(
    steps: Seq<Step>,
    stamp: Stamp,
    limits: RateLimitsView,
    usage: Option<Usage>,
    known: TimePoint,
)
    requires
        stamp.at.nanos < 1_000_000_000,
        known.nanos < 1_000_000_000,
    ensures
        ({
            let before = progress(steps).stats;
            let step = Step::Tokens { stamp, limits: Some(limits), usage };
            let after = progress(steps.push(step)).stats;
            let at = stamp.at;
            let later = at.secs * 1_000_000_000 + at.nanos > known.secs * 1_000_000_000 + known.nanos;
            &&& before.latest_rate_at is None || (before.latest_rate_at == Some(known) && later)
                ==> after.rate_limits == Some(limits) && after.latest_rate_at == Some(at)
            &&& before.latest_rate_at == Some(known) && !later ==> after.rate_limits
                == before.rate_limits && after.latest_rate_at == before.latest_rate_at
        }),
{
    let step = Step::Tokens { stamp, limits: Some(limits), usage };
    assert(steps.push(step).drop_last() =~= steps);
}

/// A blank line and a line that is no document enter the statistics as nothing. Any other line
/// enters them as what its document says: a model under the name that `normalize` gives it, and a
/// count with its limits and tokens at the moment that is written on the line.
pub proof fn law_lines_enter_as_what_they_say<F: Fn(String) -> String>(
    normalize: F,
    line: Seq<char>,
    document: JsonView,
    step: Step,
)
    requires
        step_fits(normalize, line, step),
    ensures
        is_blank_text(line) || json_document(line) is None ==> step is Ignored,
        !is_blank_text(line) && json_document(line) == Some(document) ==> match line_says(document) {
            SessionLineView::Ignored => step is Ignored,
            SessionLineView::Model(raw) => step is Model && exists|given: String, made: String|
                given@ == raw && Step::Model(made@) == step && #[trigger] call_ensures(
                    normalize,
                    (given,),
                    made,
                ),
            SessionLineView::Tokens { timestamp, limits, usage } => step is Tokens && step->limits
                == limits && step->usage == usage && (timestamp is Some && rfc3339_moment(
                timestamp->0,
            ) is Some ==> step->stamp.at == rfc3339_moment(timestamp->0)->0 && stamp_was_read(
                timestamp->0,
                step->stamp,
            )) && (timestamp is None || rfc3339_moment(timestamp->0) is None ==> day_was_read(
                step->stamp.at,
                step->stamp.day,
            )),
        },
{
}

/// A file adds up line by line: each of its lines enters the statistics once, in its turn.
pub proof fn law_a_file_adds_up_line_by_line<F: Fn(String) -> String>(
    normalize: F,
    lines: Seq<Seq<char>>,
    stats: FileStatsView,
)
    requires
        can_add_up_to(normalize, lines, stats),
    ensures
        exists|steps: Seq<Step>|
            #![trigger progress(steps)]
            steps.len() == lines.len() && stats == progress(steps).stats && forall|i: int|
                0 <= i < lines.len() ==> step_fits(normalize, lines[i], #[trigger] steps[i]),
{
    let steps = choose|steps: Seq<Step>| #[trigger]
        steps_fit(normalize, lines, steps) && stats == progress(steps).stats;
    assert(stats == progress(steps).stats);
}

} // verus!
