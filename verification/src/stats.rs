//! What all session files add up to, with the rate limits that hold.
use crate::clock::{Day, Month, TimePoint};
use crate::limits::{duplicate_limits, limits_view, RateLimits, RateLimitsView};
use crate::sessions::{is_newer, newer, FileStats, FileStatsView};
use crate::status::{CodexStatus, CodexStatusView, StatusSource};
use crate::text::chars_of_option;
use crate::usage::{
    law_tables_merge_in_any_order, law_usage_adds_in_any_order, lemma_merged_empty,
    merge_usage_map, merged, models_at, no_usage, plus, usage_at, Usage, UsageTable,
};
use vstd::prelude::*;
use vstd::string::*;

verus! {

/// What all session files add up to, and the status of the account.
pub struct Stats {
    pub total: Usage,
    pub today: Usage,
    pub month: Usage,
    pub by_model: UsageTable<String>,
    pub today_by_model: UsageTable<String>,
    pub month_by_model: UsageTable<String>,
    pub rate_limits: Option<RateLimits>,
    /// The moment of the latest rate limits in the files.
    pub latest_rate_at: Option<TimePoint>,
    pub files_seen: usize,
    pub events_seen: usize,
    pub status_source: StatusSource,
    pub auth_status: String,
    pub status_fetched_at: Option<i64>,
    pub status_error: Option<String>,
}

/// What statistics say.
#[verifier::ext_equal]
pub struct StatsView {
    pub total: Usage,
    pub today: Usage,
    pub month: Usage,
    pub by_model: Map<Seq<char>, Usage>,
    pub today_by_model: Map<Seq<char>, Usage>,
    pub month_by_model: Map<Seq<char>, Usage>,
    pub rate_limits: Option<RateLimitsView>,
    pub latest_rate_at: Option<TimePoint>,
    pub files_seen: usize,
    pub events_seen: usize,
    pub status_source: StatusSource,
    pub auth_status: Seq<char>,
    pub status_fetched_at: Option<i64>,
    pub status_error: Option<Seq<char>>,
}

impl View for Stats {
    type V = StatsView;

    open spec fn view(&self) -> StatsView {
        StatsView {
            total: self.total,
            today: self.today,
            month: self.month,
            by_model: self.by_model@,
            today_by_model: self.today_by_model@,
            month_by_model: self.month_by_model@,
            rate_limits: limits_view(self.rate_limits),
            latest_rate_at: self.latest_rate_at,
            files_seen: self.files_seen,
            events_seen: self.events_seen,
            status_source: self.status_source,
            auth_status: self.auth_status@,
            status_fetched_at: self.status_fetched_at,
            status_error: chars_of_option(self.status_error),
        }
    }
}

/// The statistics of no files.
pub open spec fn no_stats() -> StatsView {
    StatsView {
        total: no_usage(),
        today: no_usage(),
        month: no_usage(),
        by_model: Map::empty(),
        today_by_model: Map::empty(),
        month_by_model: Map::empty(),
        rate_limits: None,
        latest_rate_at: None,
        files_seen: 0,
        events_seen: 0,
        status_source: StatusSource::Unavailable,
        auth_status: ""@,
        status_fetched_at: None,
        status_error: None,
    }
}

/// `stats` with the counts of one more file.
pub open spec fn with_counts(
    stats: StatsView,
    file: FileStatsView,
    today: Day,
    month: Month,
) -> StatsView {
    StatsView {
        files_seen: stats.files_seen.wrapping_add(1),
        events_seen: stats.events_seen.wrapping_add(file.events_seen),
        total: plus(stats.total, file.total),
        by_model: merged(stats.by_model, file.by_model),
        today: plus(stats.today, usage_at(file.by_day, today)),
        today_by_model: merged(stats.today_by_model, models_at(file.by_day_model, today)),
        month: plus(stats.month, usage_at(file.by_month, month)),
        month_by_model: merged(stats.month_by_model, models_at(file.by_month_model, month)),
        ..stats
    }
}

/// Whether the limits of a file replace those of `stats`: they are later.
pub open spec fn has_newer_limits(file: FileStatsView, stats: StatsView) -> bool {
    file.latest_rate_at is Some && file.rate_limits is Some && is_newer(
        stats.latest_rate_at,
        file.latest_rate_at->0,
    )
}

/// `stats` with one more file.
pub open spec fn with_file(
    stats: StatsView,
    file: FileStatsView,
    today: Day,
    month: Month,
) -> StatsView {
    let counted = with_counts(stats, file, today, month);
    if has_newer_limits(file, stats) {
        StatsView {
            latest_rate_at: file.latest_rate_at,
            rate_limits: file.rate_limits,
            ..counted
        }
    } else {
        counted
    }
}

/// What files add up to on `today` in `month`.
pub open spec fn aggregated(files: Seq<FileStatsView>, today: Day, month: Month) -> StatsView
    decreases files.len(),
{
    if files.len() == 0 {
        no_stats()
    } else {
        with_file(aggregated(files.drop_last(), today, month), files.last(), today, month)
    }
}

/// `stats` with the status of the account.
pub open spec fn with_status(stats: StatsView, status: CodexStatusView) -> StatsView {
    StatsView {
        rate_limits: status.rate_limits,
        status_source: status.source,
        auth_status: status.auth_status,
        status_fetched_at: status.fetched_at,
        status_error: status.error,
        ..stats
    }
}

fn duplicate_text(text: &Option<String>) -> (r: Option<String>)
    ensures
        chars_of_option(r) == chars_of_option(*text),
{
    match text {
        Some(t) => Some(t.clone()),
        None => None,
    }
}

impl Stats {
    /// Whether the tables are well formed and add up to the counts beside them.
    pub open spec fn wf(&self) -> bool {
        &&& self.by_model.wf() && self.by_model.sum() == self.total
        &&& self.today_by_model.wf() && self.today_by_model.sum() == self.today
        &&& self.month_by_model.wf() && self.month_by_model.sum() == self.month
    }

    /// The statistics of no files.
    pub fn new() -> (stats: Stats)
        ensures
            stats.wf(),
            stats@ == no_stats(),
    {
        Stats {
            total: Usage::default(),
            today: Usage::default(),
            month: Usage::default(),
            by_model: UsageTable::new(),
            today_by_model: UsageTable::new(),
            month_by_model: UsageTable::new(),
            rate_limits: None,
            latest_rate_at: None,
            files_seen: 0,
            events_seen: 0,
            status_source: StatusSource::Unavailable,
            auth_status: "".to_owned(),
            status_fetched_at: None,
            status_error: None,
        }
    }

    /// Other statistics that say the same.
    pub fn duplicate(&self) -> (stats: Stats)
        ensures
            stats@ == self@,
            stats.wf() == self.wf(),
    {
        Stats {
            total: self.total,
            today: self.today,
            month: self.month,
            by_model: self.by_model.duplicate(),
            today_by_model: self.today_by_model.duplicate(),
            month_by_model: self.month_by_model.duplicate(),
            rate_limits: duplicate_limits(&self.rate_limits),
            latest_rate_at: self.latest_rate_at,
            files_seen: self.files_seen,
            events_seen: self.events_seen,
            status_source: self.status_source,
            auth_status: self.auth_status.clone(),
            status_fetched_at: self.status_fetched_at,
            status_error: duplicate_text(&self.status_error),
        }
    }

    /// Takes up one more file.
    pub fn add_file(&mut self, file: &FileStats, today: Day, month: Month)
        requires
            old(self).wf(),
            file.wf(),
        ensures
            final(self).wf(),
            final(self)@ == with_file(old(self)@, file@, today, month),
    {
        proof {
            reveal(FileStats::balanced);
            law_usage_adds_in_any_order(self.today, no_usage(), no_usage());
            law_usage_adds_in_any_order(self.month, no_usage(), no_usage());
            lemma_merged_empty(self.today_by_model@);
            lemma_merged_empty(self.month_by_model@);
            assert(file.by_day_model.sum_at(today) == usage_at(file.by_day@, today));
            assert(file.by_month_model.sum_at(month) == usage_at(file.by_month@, month));
        }
        self.files_seen = self.files_seen.wrapping_add(1);
        self.events_seen = self.events_seen.wrapping_add(file.events_seen);
        self.total.merge(&file.total);
        merge_usage_map(&mut self.by_model, &file.by_model);
        if let Some(usage) = file.by_day.get(&today) {
            self.today.merge(&usage);
        }
        if let Some(models) = file.by_day_model.get(&today) {
            merge_usage_map(&mut self.today_by_model, models);
        }
        if let Some(usage) = file.by_month.get(&month) {
            self.month.merge(&usage);
        }
        if let Some(models) = file.by_month_model.get(&month) {
            merge_usage_map(&mut self.month_by_model, models);
        }
        if let Some(at) = &file.latest_rate_at {
            if let Some(limits) = &file.rate_limits {
                if newer(&self.latest_rate_at, at) {
                    self.latest_rate_at = Some(*at);
                    self.rate_limits = Some(limits.duplicate());
                }
            }
        }
    }
}

impl Default for Stats {
    fn default() -> (stats: Stats)
        ensures
            stats.wf(),
            stats@ == no_stats(),
    {
        Stats::new()
    }
}

/// Puts the status of the account in place of the limits of the files. The counts stay.
pub fn apply_status(stats: &mut Stats, status: CodexStatus)
    requires
        old(stats).wf(),
    ensures
        final(stats).wf(),
        final(stats)@ == with_status(old(stats)@, status@),
{
    stats.rate_limits = status.rate_limits;
    stats.status_source = status.source;
    stats.auth_status = status.auth_status;
    stats.status_fetched_at = status.fetched_at;
    stats.status_error = status.error;
}

/// `stats` without the rate limits of the files.
pub open spec fn counts_of(stats: StatsView) -> StatsView {
    StatsView { rate_limits: None, latest_rate_at: None, ..stats }
}

proof fn lemma_counts_fold(files: Seq<FileStatsView>, today: Day, month: Month)
    ensures
        counts_of(aggregated(files, today, month)) == files.fold_left(
            no_stats(),
            |s: StatsView, f: FileStatsView| with_counts(s, f, today, month),
        ),
    decreases files.len(),
{
    if files.len() > 0 {
        lemma_counts_fold(files.drop_last(), today, month);
    }
}

proof fn lemma_counts_commute(
    stats: StatsView,
    a: FileStatsView,
    b: FileStatsView,
    today: Day,
    month: Month,
)
    ensures
        with_counts(with_counts(stats, a, today, month), b, today, month) == with_counts(
            with_counts(stats, b, today, month),
            a,
            today,
            month,
        ),
{
    lemma_plus_swaps(stats.total, a.total, b.total);
    lemma_plus_swaps(stats.today, usage_at(a.by_day, today), usage_at(b.by_day, today));
    lemma_plus_swaps(stats.month, usage_at(a.by_month, month), usage_at(b.by_month, month));
    lemma_merged_swaps(stats.by_model, a.by_model, b.by_model);
    lemma_merged_swaps(
        stats.today_by_model,
        models_at(a.by_day_model, today),
        models_at(b.by_day_model, today),
    );
    lemma_merged_swaps(
        stats.month_by_model,
        models_at(a.by_month_model, month),
        models_at(b.by_month_model, month),
    );
}

proof fn lemma_plus_swaps(s: Usage, a: Usage, b: Usage)
    ensures
        plus(plus(s, a), b) == plus(plus(s, b), a),
{
    law_usage_adds_in_any_order(s, a, b);
    law_usage_adds_in_any_order(s, b, a);
    law_usage_adds_in_any_order(a, b, s);
}

proof fn lemma_merged_swaps(
    s: Map<Seq<char>, Usage>,
    a: Map<Seq<char>, Usage>,
    b: Map<Seq<char>, Usage>,
)
    ensures
        merged(merged(s, a), b) == merged(merged(s, b), a),
{
    law_tables_merge_in_any_order(s, a, b);
    law_tables_merge_in_any_order(s, b, a);
    law_tables_merge_in_any_order(a, b, s);
}

/// The order in which files are taken up does not change what they add up to.
pub proof fn law_files_add_up_in_any_order(
    files: Seq<FileStatsView>,
    reordered: Seq<FileStatsView>,
    today: Day,
    month: Month,
)
    requires
        files.to_multiset() == reordered.to_multiset(),
    ensures
        counts_of(aggregated(files, today, month)) == counts_of(
            aggregated(reordered, today, month),
        ),
{
    let f = |s: StatsView, file: FileStatsView| with_counts(s, file, today, month);
    assert forall|x: FileStatsView, y: FileStatsView, v: StatsView| #[trigger]
        f(f(v, x), y) == f(f(v, y), x) by {
        lemma_counts_commute(v, x, y, today, month);
    }
    lemma_counts_fold(files, today, month);
    lemma_counts_fold(reordered, today, month);
    vstd::seq_lib::lemma_fold_left_permutation(files, reordered, f, no_stats());
}

/// The rate limits of all files are the latest: some file has them, and no file has later ones.
/// There are none exactly where no file has any.
pub proof fn law_latest_file_limits_win(files: Seq<FileStatsView>, today: Day, month: Month)
    ensures
        ({
            let stats = aggregated(files, today, month);
            &&& stats.latest_rate_at is Some <==> stats.rate_limits is Some
            &&& stats.rate_limits is Some ==> exists|i: int|
                0 <= i < files.len() && (#[trigger] files[i]).rate_limits == stats.rate_limits
                    && files[i].latest_rate_at == stats.latest_rate_at
            &&& forall|i: int|
                0 <= i < files.len() && (#[trigger] files[i]).rate_limits is Some
                    && files[i].latest_rate_at is Some ==> stats.latest_rate_at is Some
                    && !files[i].latest_rate_at->0.after(stats.latest_rate_at->0)
        }),
    decreases files.len(),
{
    if files.len() > 0 {
        let front = files.drop_last();
        law_latest_file_limits_win(front, today, month);
        let before = aggregated(front, today, month);
        let stats = aggregated(files, today, month);
        let last = files.len() - 1;
        if stats.rate_limits is Some {
            if has_newer_limits(files[last], before) {
                assert(files[last].rate_limits == stats.rate_limits);
            } else {
                let i = choose|i: int|
                    0 <= i < front.len() && (#[trigger] front[i]).rate_limits
                        == before.rate_limits && front[i].latest_rate_at == before.latest_rate_at;
                assert(files[i] == front[i]);
            }
        }
        assert forall|i: int|
            0 <= i < files.len() && (#[trigger] files[i]).rate_limits is Some
                && files[i].latest_rate_at is Some implies stats.latest_rate_at is Some
            && !files[i].latest_rate_at->0.after(stats.latest_rate_at->0) by {
            if i < last {
                assert(files[i] == front[i]);
            }
        }
    }
}

/// A file raises the counts by what it holds: all of it in total, that of `today` for the day, and
/// that of `month` for the month; each by model too. What it holds of other days and months counts
/// in total only. The status of the account stays.
pub proof fn law_a_file_raises_the_counts_by_what_it_holds(
    files: Seq<FileStatsView>,
    file: FileStatsView,
    today: Day,
    month: Month,
)
    ensures
        ({
            let stats = aggregated(files, today, month);
            let after = aggregated(files.push(file), today, month);
            &&& after.total == plus(stats.total, file.total)
            &&& after.by_model == merged(stats.by_model, file.by_model)
            &&& file.by_day.dom().contains(today) ==> after.today == plus(
                stats.today,
                file.by_day[today],
            )
            &&& !file.by_day.dom().contains(today) ==> after.today == stats.today
            &&& file.by_day_model.dom().contains(today) ==> after.today_by_model == merged(
                stats.today_by_model,
                file.by_day_model[today],
            )
            &&& !file.by_day_model.dom().contains(today) ==> after.today_by_model
                == stats.today_by_model
            &&& file.by_month.dom().contains(month) ==> after.month == plus(
                stats.month,
                file.by_month[month],
            )
            &&& !file.by_month.dom().contains(month) ==> after.month == stats.month
            &&& file.by_month_model.dom().contains(month) ==> after.month_by_model == merged(
                stats.month_by_model,
                file.by_month_model[month],
            )
            &&& !file.by_month_model.dom().contains(month) ==> after.month_by_model
                == stats.month_by_model
            &&& stats.files_seen < usize::MAX ==> after.files_seen == stats.files_seen + 1
            &&& stats.events_seen + file.events_seen <= usize::MAX ==> after.events_seen
                == stats.events_seen + file.events_seen
            &&& after.status_source == stats.status_source
            &&& after.auth_status == stats.auth_status
            &&& after.status_fetched_at == stats.status_fetched_at
            &&& after.status_error == stats.status_error
        }),
{
    let stats = aggregated(files, today, month);
    assert(files.push(file).drop_last() =~= files);
    law_usage_adds_in_any_order(stats.today, no_usage(), no_usage());
    law_usage_adds_in_any_order(stats.month, no_usage(), no_usage());
    lemma_merged_empty(stats.today_by_model);
    lemma_merged_empty(stats.month_by_model);
}

/// The limits of a file replace those that are there exactly where there are none or where they were
/// reported at a later moment, and then with their moment.
pub proof fn law_later_limits_replace_earlier_ones(
    files: Seq<FileStatsView>,
    file: FileStatsView,
    today: Day,
    month: Month,
    at: TimePoint,
    known: TimePoint,
)
    requires
        file.latest_rate_at == Some(at),
        file.rate_limits is Some,
        at.nanos < 1_000_000_000,
        known.nanos < 1_000_000_000,
    ensures
        ({
            let stats = aggregated(files, today, month);
            let after = aggregated(files.push(file), today, month);
            let later = at.secs * 1_000_000_000 + at.nanos > known.secs * 1_000_000_000 + known.nanos;
            &&& stats.latest_rate_at is None || (stats.latest_rate_at == Some(known) && later)
                ==> after.rate_limits == file.rate_limits && after.latest_rate_at == Some(at)
            &&& stats.latest_rate_at == Some(known) && !later ==> after.rate_limits
                == stats.rate_limits && after.latest_rate_at == stats.latest_rate_at
        }),
{
    assert(files.push(file).drop_last() =~= files);
}

/// The status of the account is put in place of the limits of the files, part by part, and no count
/// changes.
pub proof fn law_a_status_changes_no_counts(stats: StatsView, status: CodexStatusView)
    ensures
        ({
            let after = with_status(stats, status);
            &&& after.rate_limits == status.rate_limits
            &&& after.status_source == status.source
            &&& after.auth_status == status.auth_status
            &&& after.status_fetched_at == status.fetched_at
            &&& after.status_error == status.error
            &&& after.total == stats.total
            &&& after.today == stats.today
            &&& after.month == stats.month
            &&& after.by_model == stats.by_model
            &&& after.today_by_model == stats.today_by_model
            &&& after.month_by_model == stats.month_by_model
            &&& after.latest_rate_at == stats.latest_rate_at
            &&& after.files_seen == stats.files_seen
            &&& after.events_seen == stats.events_seen
        }),
{
}

/// No files add up to nothing.
pub proof fn law_no_files_add_up_to_nothing(today: Day, month: Month)
    ensures
        ({
            let none = aggregated(Seq::empty(), today, month);
            &&& none.total == no_usage() && none.today == no_usage() && none.month == no_usage()
            &&& none.by_model == Map::<Seq<char>, Usage>::empty()
            &&& none.today_by_model == Map::<Seq<char>, Usage>::empty()
            &&& none.month_by_model == Map::<Seq<char>, Usage>::empty()
            &&& none.rate_limits is None && none.latest_rate_at is None
            &&& none.files_seen == 0 && none.events_seen == 0
            &&& none.status_source is Unavailable && none.status_fetched_at is None
            &&& no_usage().input_tokens == 0 && no_usage().cached_input_tokens == 0
            &&& no_usage().output_tokens == 0 && no_usage().reasoning_output_tokens == 0
            &&& no_usage().total_tokens == 0
        }),
{
}

} // verus!
