//! The details, as text and as a page.
use crate::clock::{
    clock_now, day_fits, day_was_read, is_reading, month_range_of, month_range_text, today, was_read,
    Day, Month, TimePoint,
};
use crate::limits::{
    display_plan, full_name, limits_view, pace_color, pace_text, pace_tint, pace_view, pace_words,
    plan_shown, rate_color, short_name, shown_at, usage_color, window_full, window_present,
    window_short, Pace, PaceView, RateLimits, RateLimitsView, WindowLimit,
};
use crate::money::{dollars, dollars_text, money_view, Money, MoneyView};
use crate::page::{
    BREAKDOWN_END, BREAKDOWN_ROW, BREAKDOWN_ROW_END, BREAKDOWN_START, BREAKDOWN_VALUE,
    COST_CARD_AFTER_RANGE, COST_CARD_AFTER_TOKENS, COST_CARD_END, COST_CARD_METRIC,
    COST_CARD_RANGE, COST_CARD_START, COST_CARD_TOKENS, FOOTER_FILES, FOOTER_START, HEADER_END,
    PACE_CARD_END, PACE_CARD_EXPECTED, PACE_CARD_METRIC, PACE_CARD_START, PACE_CARD_WINDOW,
    PAGE_END, PAGE_START, PARTY_CARD_END, PARTY_CARD_NOTE, PARTY_CARD_START, RATE_CARD_BAR,
    RATE_CARD_BAR_END, RATE_CARD_CLOCK, RATE_CARD_END, RATE_CARD_METRIC, RATE_CARD_METRIC_END,
    RATE_CARD_COLOR, RATE_CARD_RESET, RATE_CARD_START, REFRESH_CARD_END, REFRESH_CARD_START,
    TABLE_END, TABLE_START,
};
use crate::ranking::{leading, ranked, top_models};
use crate::render::{
    current_limits_at, local_offsets, plan_of, primary_of, secondary_of, shown_times_at, times_at,
    LocalOffsets, RateWords, RateWordsView, ShownTimes, ShownTimesView,
};
use crate::stats::{Stats, StatsView};
use crate::status::source_name;
use crate::text::{
    comma_text, compact_text, compact_tokens, contains_text, decimal, full_tokens, html_escape,
    html_escaped, law_a_text_holds_its_parts, occurs_at, usize_text,
};
use crate::usage::{listed, unpriced_sum, unpriced_tokens, Usage};
use vstd::prelude::*;
use vstd::string::*;

verus! {

/// The texts that floating-point formatting gives for one model.
pub struct ModelWords {
    pub cost: Option<Money>,
    /// The counts in millions or billions, for those that are that large.
    pub total: String,
    pub input: String,
    pub cached: String,
    pub output: String,
    pub reasoning: String,
}

/// What the texts for one model say.
pub struct ModelWordsView {
    pub cost: Option<MoneyView>,
    pub total: Seq<char>,
    pub input: Seq<char>,
    pub cached: Seq<char>,
    pub output: Seq<char>,
    pub reasoning: Seq<char>,
}

impl View for ModelWords {
    type V = ModelWordsView;

    open spec fn view(&self) -> ModelWordsView {
        ModelWordsView {
            cost: money_view(self.cost),
            total: self.total@,
            input: self.input@,
            cached: self.cached@,
            output: self.output@,
            reasoning: self.reasoning@,
        }
    }
}

/// What the details show beside the statistics: costs, the texts that floating-point formatting
/// gives, and the settings.
pub struct DetailsWords {
    pub rate: RateWords,
    /// The usage of the primary window, from none to all, as the length of a bar.
    pub primary_bar: String,
    /// The usage of the secondary window, from none to all, as the length of a bar.
    pub secondary_bar: String,
    pub today_cost: Option<Money>,
    pub month_cost: Option<Money>,
    pub total_cost: Option<Money>,
    /// The texts for the leading models, in their order.
    pub models: Vec<ModelWords>,
    /// For each model in the statistics, whether it has a price.
    pub priced: Vec<bool>,
    pub party_mode: bool,
    pub refresh_interval: String,
}

/// What the details show beside the statistics.
pub struct DetailsWordsView {
    pub rate: RateWordsView,
    pub primary_bar: Seq<char>,
    pub secondary_bar: Seq<char>,
    pub today_cost: Option<MoneyView>,
    pub month_cost: Option<MoneyView>,
    pub total_cost: Option<MoneyView>,
    pub models: Seq<ModelWordsView>,
    pub priced: Seq<bool>,
    pub party_mode: bool,
    pub refresh_interval: Seq<char>,
}

impl View for DetailsWords {
    type V = DetailsWordsView;

    open spec fn view(&self) -> DetailsWordsView {
        DetailsWordsView {
            rate: self.rate@,
            primary_bar: self.primary_bar@,
            secondary_bar: self.secondary_bar@,
            today_cost: money_view(self.today_cost),
            month_cost: money_view(self.month_cost),
            total_cost: money_view(self.total_cost),
            models: self.models@.map_values(|m: ModelWords| m@),
            priced: self.priced@,
            party_mode: self.party_mode,
            refresh_interval: self.refresh_interval@,
        }
    }
}

/// Models with their counts.
pub type Models = Seq<(Seq<char>, Usage)>;

/// Whether there are texts for each leading model, and a price or none for each model.
pub open spec fn words_fit(models: Models, words: DetailsWordsView) -> bool {
    words.models.len() == leading(ranked(models)).len() && words.priced.len() == models.len()
}

/// The pace in the primary window, if that window is known.
pub open spec fn known_pace(limits: Option<RateLimitsView>, words: RateWordsView) -> Option<
    PaceView,
> {
    if primary_of(limits).resets_at is Some {
        words.pace
    } else {
        None
    }
}

/// The percentage that an even pace would have used by now.
pub open spec fn expected_text(pace: Option<PaceView>) -> Seq<char> {
    match pace {
        Some(p) => p.expected,
        None => "0.0"@,
    }
}

fn expected_percent(pace: &Option<Pace>) -> (text: String)
    ensures
        text@ == expected_text(pace_view(*pace)),
{
    match pace {
        Some(p) => p.expected.clone(),
        None => "0.0".to_owned(),
    }
}

/// A line about one window.
pub open spec fn window_line(
    w: WindowLimit,
    percent: Seq<char>,
    reset: Seq<char>,
    clock: Seq<char>,
) -> Seq<char> {
    short_name(w.window_duration_mins) + ": "@ + percent + "% used | reset in "@ + reset + " at "@
        + clock
}

fn window_line_text(w: &WindowLimit, percent: &str, reset: &str, clock: &str) -> (line: String)
    ensures
        line@ == window_line(*w, percent@, reset@, clock@),
{
    let mut out = window_short(w.window_duration_mins).to_owned();
    out.append(": ");
    out.append(percent);
    out.append("% used | reset in ");
    out.append(reset);
    out.append(" at ");
    out.append(clock);
    out
}

/// The lines about the rate limits.
pub open spec fn rate_block(
    limits: Option<RateLimitsView>,
    times: ShownTimesView,
    words: RateWordsView,
) -> Seq<char> {
    match limits {
        Some(rate) => "Rate limits (Codex/ChatGPT account)\n"@ + window_line(
            rate.primary,
            words.primary_percent,
            times.primary_reset,
            times.primary_clock,
        ) + "\n"@ + window_line(
            rate.secondary,
            words.secondary_percent,
            times.secondary_reset,
            times.secondary_clock,
        ) + "\nPace: "@ + pace_words(known_pace(limits, words)) + " | expected "@ + expected_text(
            known_pace(limits, words),
        ) + "%"@,
        None => "Rate limits\nCodex status unavailable (no recent account snapshot)"@,
    }
}

fn rate_block_text(limits: &Option<RateLimits>, times: &ShownTimes, words: &RateWords) -> (block:
    String)
    ensures
        block@ == rate_block(limits_view(*limits), times@, words@),
{
    match limits {
        Some(rate) => {
            let mut out = "Rate limits (Codex/ChatGPT account)\n".to_owned();
            out.append(
                window_line_text(
                    &rate.primary,
                    words.primary_percent.as_str(),
                    times.primary_reset.as_str(),
                    times.primary_clock.as_str(),
                ).as_str(),
            );
            out.append("\n");
            out.append(
                window_line_text(
                    &rate.secondary,
                    words.secondary_percent.as_str(),
                    times.secondary_reset.as_str(),
                    times.secondary_clock.as_str(),
                ).as_str(),
            );
            out.append("\nPace: ");
            let none: Option<Pace> = None;
            let pace = if window_present(&rate.primary) {
                &words.pace
            } else {
                &none
            };
            out.append(pace_text(pace).as_str());
            out.append(" | expected ");
            out.append(expected_percent(pace).as_str());
            out.append("%");
            out
        },
        None => "Rate limits\nCodex status unavailable (no recent account snapshot)".to_owned(),
    }
}

/// The line about one model.
pub open spec fn model_line(model: Seq<char>, usage: Usage, words: ModelWordsView) -> Seq<char> {
    model + ": "@ + comma_text(usage.total_tokens) + " tokens | input "@ + comma_text(
        usage.input_tokens,
    ) + " | cached "@ + comma_text(usage.cached_input_tokens) + " | output "@ + comma_text(
        usage.output_tokens,
    ) + " | reasoning "@ + comma_text(usage.reasoning_output_tokens) + " | cost "@ + dollars_text(
        words.cost,
    )
}

fn model_line_text(model: &str, usage: &Usage, words: &ModelWords) -> (line: String)
    ensures
        line@ == model_line(model@, *usage, words@),
{
    let mut out = model.to_owned();
    out.append(": ");
    out.append(full_tokens(usage.total_tokens).as_str());
    out.append(" tokens | input ");
    out.append(full_tokens(usage.input_tokens).as_str());
    out.append(" | cached ");
    out.append(full_tokens(usage.cached_input_tokens).as_str());
    out.append(" | output ");
    out.append(full_tokens(usage.output_tokens).as_str());
    out.append(" | reasoning ");
    out.append(full_tokens(usage.reasoning_output_tokens).as_str());
    out.append(" | cost ");
    out.append(dollars(&words.cost).as_str());
    out
}

/// The lines about some models.
pub open spec fn model_lines(top: Models, words: Seq<ModelWordsView>) -> Seq<char>
    decreases top.len(),
{
    if top.len() == 0 {
        Seq::empty()
    } else {
        let line = model_line(top.last().0, top.last().1, words[top.len() - 1]);
        if top.len() == 1 {
            line
        } else {
            model_lines(top.drop_last(), words) + "\n"@ + line
        }
    }
}

fn model_lines_text(top: &Vec<(String, Usage)>, words: &Vec<ModelWords>) -> (lines: String)
    requires
        words@.len() == top@.len(),
    ensures
        lines@ == model_lines(listed(top@), words@.map_values(|m: ModelWords| m@)),
{
    let ghost all = listed(top@);
    let ghost said = words@.map_values(|m: ModelWords| m@);
    let mut out = String::new();
    let mut i: usize = 0;
    proof {
        assert(out@ =~= model_lines(all.take(0), said));
    }
    while i < top.len()
        invariant
            i <= top@.len(),
            words@.len() == top@.len(),
            all == listed(top@),
            said == words@.map_values(|m: ModelWords| m@),
            out@ == model_lines(all.take(i as int), said),
        decreases top@.len() - i,
    {
        let ghost before = out@;
        proof {
            assert(all.take(i + 1).drop_last() =~= all.take(i as int));
            assert(all.take(i + 1).last() == (top@[i as int].0@, top@[i as int].1));
        }
        let line = model_line_text(top[i].0.as_str(), &top[i].1, &words[i]);
        if i > 0 {
            out.append("\n");
        }
        out.append(line.as_str());
        proof {
            if i == 0 {
                assert(all.take(0) =~= Seq::empty());
                assert(before =~= Seq::empty());
                assert(out@ =~= line@);
            }
        }
        i += 1;
    }
    proof {
        assert(all.take(all.len() as int) =~= all);
    }
    out
}

/// A line of tokens and what they cost.
pub open spec fn spent_line(label: Seq<char>, usage: Usage, cost: Option<MoneyView>) -> Seq<char> {
    label + comma_text(usage.total_tokens) + " tokens | "@ + dollars_text(cost)
}

fn spent_line_text(label: &str, usage: &Usage, cost: &Option<Money>) -> (line: String)
    ensures
        line@ == spent_line(label@, *usage, money_view(*cost)),
{
    let mut out = label.to_owned();
    out.append(full_tokens(usage.total_tokens).as_str());
    out.append(" tokens | ");
    out.append(dollars(cost).as_str());
    out
}

/// The details as text.
pub open spec fn details_text(
    stats: StatsView,
    models: Models,
    limits: Option<RateLimitsView>,
    times: ShownTimesView,
    words: DetailsWordsView,
) -> Seq<char> {
    "Codex Status\n\nPlan: "@ + plan_of(limits) + "\nAuth: "@ + stats.auth_status
        + "\nStatus source: "@ + source_name(stats.status_source) + "\nLast update: "@
        + times.fetched + "\nParty mode: "@ + (if words.party_mode {
        "on"@
    } else {
        "off"@
    }) + "\nRefresh interval: "@ + words.refresh_interval + "\n\n"@ + rate_block(
        limits,
        times,
        words.rate,
    ) + "\n\nLocal Codex session tokens (not OpenCode)"@ + spent_line(
        "\nToday: "@,
        stats.today,
        words.today_cost,
    ) + spent_line("\nThis month: "@, stats.month, words.month_cost) + spent_line(
        "\nAll-time: "@,
        stats.total,
        words.total_cost,
    ) + "\n\nToken breakdown\nAll-time input: "@ + comma_text(stats.total.input_tokens)
        + "\nAll-time cached input: "@ + comma_text(stats.total.cached_input_tokens)
        + "\nAll-time output: "@ + comma_text(stats.total.output_tokens)
        + "\nAll-time reasoning: "@ + comma_text(stats.total.reasoning_output_tokens)
        + "\nSkipped with no public API price: "@ + comma_text(unpriced_sum(models, words.priced))
        + "\n\nModels\n"@ + model_lines(leading(ranked(models)), words.models)
        + "\n\nJSONL events: "@ + decimal(stats.events_seen as nat) + " from "@ + decimal(
        stats.files_seen as nat,
    ) + " files\n"@
}

/// The details as text. `limits` are the current ones, if there are any.
pub fn write_details_text(
    stats: &Stats,
    limits: &Option<RateLimits>,
    times: &ShownTimes,
    words: &DetailsWords,
) -> (text: String)
    requires
        words_fit(listed(stats.by_model.entries@), words@),
    ensures
        text@ == details_text(
            stats@,
            listed(stats.by_model.entries@),
            limits_view(*limits),
            times@,
            words@,
        ),
{
    let top = top_models(&stats.by_model);
    let plan = match limits {
        Some(rate) => display_plan(rate.plan_type.as_str()),
        None => "n/a",
    };
    let mut out = "Codex Status\n\nPlan: ".to_owned();
    out.append(plan);
    out.append("\nAuth: ");
    out.append(stats.auth_status.as_str());
    out.append("\nStatus source: ");
    out.append(stats.status_source.label());
    out.append("\nLast update: ");
    out.append(times.fetched.as_str());
    out.append("\nParty mode: ");
    if words.party_mode {
        out.append("on");
    } else {
        out.append("off");
    }
    out.append("\nRefresh interval: ");
    out.append(words.refresh_interval.as_str());
    out.append("\n\n");
    out.append(rate_block_text(limits, times, &words.rate).as_str());
    out.append("\n\nLocal Codex session tokens (not OpenCode)");
    out.append(spent_line_text("\nToday: ", &stats.today, &words.today_cost).as_str());
    out.append(spent_line_text("\nThis month: ", &stats.month, &words.month_cost).as_str());
    out.append(spent_line_text("\nAll-time: ", &stats.total, &words.total_cost).as_str());
    out.append("\n\nToken breakdown\nAll-time input: ");
    out.append(full_tokens(stats.total.input_tokens).as_str());
    out.append("\nAll-time cached input: ");
    out.append(full_tokens(stats.total.cached_input_tokens).as_str());
    out.append("\nAll-time output: ");
    out.append(full_tokens(stats.total.output_tokens).as_str());
    out.append("\nAll-time reasoning: ");
    out.append(full_tokens(stats.total.reasoning_output_tokens).as_str());
    out.append("\nSkipped with no public API price: ");
    out.append(full_tokens(unpriced_tokens(&stats.by_model, &words.priced)).as_str());
    out.append("\n\nModels\n");
    out.append(model_lines_text(&top, &words.models).as_str());
    out.append("\n\nJSONL events: ");
    out.append(usize_text(stats.events_seen).as_str());
    out.append(" from ");
    out.append(usize_text(stats.files_seen).as_str());
    out.append(" files\n");
    out
}

/// The details as text at `now`. Rate limits that are no longer current are left out.
pub open spec fn details_text_at(
    stats: StatsView,
    models: Models,
    words: DetailsWordsView,
    now: TimePoint,
    offsets: LocalOffsets,
) -> Seq<char> {
    let limits = shown_at(stats.rate_limits, now.secs);
    details_text(
        stats,
        models,
        limits,
        times_at(limits, stats.status_fetched_at, now, offsets),
        words,
    )
}

/// The details as text at `now`.
pub fn make_details_text_at(
    stats: &Stats,
    words: &DetailsWords,
    now: TimePoint,
    offsets: LocalOffsets,
) -> (text: String)
    requires
        words_fit(listed(stats.by_model.entries@), words@),
        is_reading(now),
        offsets.wf(),
    ensures
        text@ == details_text_at(
            stats@,
            listed(stats.by_model.entries@),
            words@,
            now,
            offsets,
        ),
{
    let limits = current_limits_at(stats, now.secs);
    let times = shown_times_at(&limits, stats.status_fetched_at, now, offsets);
    write_details_text(stats, &limits, &times, words)
}

/// The details as text, now.
pub fn make_details_text(stats: &Stats, words: &DetailsWords) -> (text: String)
    requires
        words_fit(listed(stats.by_model.entries@), words@),
    ensures
        exists|now: TimePoint, offsets: LocalOffsets|
            is_reading(now) && was_read(now) && offsets.wf() && offsets.were_read(stats@) && text@
                == #[trigger] details_text_at(
                stats@,
                listed(stats.by_model.entries@),
                words@,
                now,
                offsets,
            ),
{
    let now = clock_now();
    let offsets = local_offsets(stats);
    make_details_text_at(stats, words, now, offsets)
}

/// The title of the card of a window.
pub open spec fn card_title(w: WindowLimit) -> Seq<char> {
    if w.resets_at is Some {
        full_name(w.window_duration_mins)
    } else {
        "n/a"@
    }
}

/// The bar in the card of a window.
pub open spec fn rate_bar(bar: Seq<char>) -> Seq<char> {
    RATE_CARD_BAR@ + bar + RATE_CARD_BAR_END@
}

/// The card of a window. `usage` is its percentage and the length of its bar; where it is no longer
/// known the card says so and has no bar.
pub open spec fn rate_card(
    w: WindowLimit,
    usage: Option<(Seq<char>, Seq<char>)>,
    reset: Seq<char>,
    clock: Seq<char>,
) -> Seq<char> {
    RATE_CARD_START@ + card_title(w) + RATE_CARD_COLOR@ + usage_color(w.used_percent)
        + RATE_CARD_METRIC@ + (match usage {
        Some(u) => u.0 + "%"@,
        None => "n/a"@,
    }) + RATE_CARD_METRIC_END@ + (match usage {
        Some(u) => rate_bar(u.1),
        None => ""@,
    }) + RATE_CARD_RESET@ + html_escaped(reset) + RATE_CARD_CLOCK@ + html_escaped(clock)
        + RATE_CARD_END@
}

/// What may be a percentage and a length, as sequences of characters.
pub open spec fn usage_view(usage: Option<(&str, &str)>) -> Option<(Seq<char>, Seq<char>)> {
    match usage {
        Some(u) => Some((u.0@, u.1@)),
        None => None,
    }
}

fn rate_card_html(w: &WindowLimit, usage: Option<(&str, &str)>, reset: &str, clock: &str) -> (card:
    String)
    ensures
        card@ == rate_card(*w, usage_view(usage), reset@, clock@),
{
    let title = if window_present(w) {
        window_full(w.window_duration_mins)
    } else {
        "n/a"
    };
    let (metric, bar) = match usage {
        Some((percent, length)) => {
            let mut metric = percent.to_owned();
            metric.append("%");
            let mut bar = RATE_CARD_BAR.to_owned();
            bar.append(length);
            bar.append(RATE_CARD_BAR_END);
            (metric, bar)
        },
        None => ("n/a".to_owned(), "".to_owned()),
    };
    let mut out = RATE_CARD_START.to_owned();
    out.append(title);
    out.append(RATE_CARD_COLOR);
    out.append(rate_color(w.used_percent));
    out.append(RATE_CARD_METRIC);
    out.append(metric.as_str());
    out.append(RATE_CARD_METRIC_END);
    out.append(bar.as_str());
    out.append(RATE_CARD_RESET);
    out.append(html_escape(reset).as_str());
    out.append(RATE_CARD_CLOCK);
    out.append(html_escape(clock).as_str());
    out.append(RATE_CARD_END);
    out
}

/// The card of the pace.
pub open spec fn pace_card(pace: Option<PaceView>, window: Seq<char>) -> Seq<char> {
    PACE_CARD_START@ + pace_tint(pace) + PACE_CARD_METRIC@ + html_escaped(pace_words(pace))
        + PACE_CARD_EXPECTED@ + expected_text(pace) + PACE_CARD_WINDOW@ + window + PACE_CARD_END@
}

fn pace_card_html(pace: &Option<Pace>, window: &str) -> (card: String)
    ensures
        card@ == pace_card(pace_view(*pace), window@),
{
    let mut out = PACE_CARD_START.to_owned();
    out.append(pace_color(pace));
    out.append(PACE_CARD_METRIC);
    out.append(html_escape(pace_text(pace).as_str()).as_str());
    out.append(PACE_CARD_EXPECTED);
    out.append(expected_percent(pace).as_str());
    out.append(PACE_CARD_WINDOW);
    out.append(window);
    out.append(PACE_CARD_END);
    out
}

/// The cards of the settings.
pub open spec fn settings_cards(party_mode: bool, refresh_interval: Seq<char>) -> Seq<char> {
    PARTY_CARD_START@ + (if party_mode {
        "On"@
    } else {
        "Off"@
    }) + PARTY_CARD_NOTE@ + (if party_mode {
        "Confetti enabled"@
    } else {
        "Notifications only"@
    }) + PARTY_CARD_END@ + REFRESH_CARD_START@ + refresh_interval + REFRESH_CARD_END@
}

fn settings_cards_html(party_mode: bool, refresh_interval: &str) -> (cards: String)
    ensures
        cards@ == settings_cards(party_mode, refresh_interval@),
{
    let mut out = PARTY_CARD_START.to_owned();
    if party_mode {
        out.append("On");
    } else {
        out.append("Off");
    }
    out.append(PARTY_CARD_NOTE);
    if party_mode {
        out.append("Confetti enabled");
    } else {
        out.append("Notifications only");
    }
    out.append(PARTY_CARD_END);
    out.append(REFRESH_CARD_START);
    out.append(refresh_interval);
    out.append(REFRESH_CARD_END);
    out
}

/// The card of a cost, with the days of the month where they are given.
pub open spec fn cost_card(
    label: Seq<char>,
    usage: Usage,
    cost: Option<MoneyView>,
    range: Option<Seq<char>>,
) -> Seq<char> {
    let head = COST_CARD_START@ + label + COST_CARD_METRIC@ + dollars_text(cost)
        + COST_CARD_TOKENS@ + comma_text(usage.total_tokens) + COST_CARD_AFTER_TOKENS@;
    match range {
        Some(days) => head + COST_CARD_RANGE@ + html_escaped(days) + COST_CARD_AFTER_RANGE@
            + COST_CARD_END@,
        None => head + COST_CARD_END@,
    }
}

fn cost_card_html(label: &str, usage: &Usage, cost: &Option<Money>, range: Option<&str>) -> (card:
    String)
    ensures
        card@ == cost_card(
            label@,
            *usage,
            money_view(*cost),
            crate::text::text_of_ref(range),
        ),
{
    let mut out = COST_CARD_START.to_owned();
    out.append(label);
    out.append(COST_CARD_METRIC);
    out.append(dollars(cost).as_str());
    out.append(COST_CARD_TOKENS);
    out.append(full_tokens(usage.total_tokens).as_str());
    out.append(COST_CARD_AFTER_TOKENS);
    if let Some(days) = range {
        out.append(COST_CARD_RANGE);
        out.append(html_escape(days).as_str());
        out.append(COST_CARD_AFTER_RANGE);
    }
    out.append(COST_CARD_END);
    out
}

/// A row in the card of the tokens.
pub open spec fn breakdown_row(label: Seq<char>, tokens: i64) -> Seq<char> {
    BREAKDOWN_ROW@ + label + BREAKDOWN_VALUE@ + comma_text(tokens) + BREAKDOWN_ROW_END@
}

fn breakdown_row_html(label: &str, tokens: i64) -> (row: String)
    ensures
        row@ == breakdown_row(label@, tokens),
{
    let mut out = BREAKDOWN_ROW.to_owned();
    out.append(label);
    out.append(BREAKDOWN_VALUE);
    out.append(full_tokens(tokens).as_str());
    out.append(BREAKDOWN_ROW_END);
    out
}

/// The card of the tokens.
pub open spec fn breakdown_card(total: Usage, unpriced: i64) -> Seq<char> {
    BREAKDOWN_START@ + breakdown_row("Input"@, total.input_tokens) + breakdown_row(
        "Cached input"@,
        total.cached_input_tokens,
    ) + breakdown_row("Output"@, total.output_tokens) + breakdown_row(
        "Reasoning"@,
        total.reasoning_output_tokens,
    ) + breakdown_row("Unpriced"@, unpriced) + BREAKDOWN_END@
}

fn breakdown_card_html(total: &Usage, unpriced: i64) -> (card: String)
    ensures
        card@ == breakdown_card(*total, unpriced),
{
    let mut out = BREAKDOWN_START.to_owned();
    out.append(breakdown_row_html("Input", total.input_tokens).as_str());
    out.append(breakdown_row_html("Cached input", total.cached_input_tokens).as_str());
    out.append(breakdown_row_html("Output", total.output_tokens).as_str());
    out.append(breakdown_row_html("Reasoning", total.reasoning_output_tokens).as_str());
    out.append(breakdown_row_html("Unpriced", unpriced).as_str());
    out.append(BREAKDOWN_END);
    out
}

/// A cell with a count: short, and in full where one points at it.
pub open spec fn count_cell(tokens: i64, scaled: Seq<char>) -> Seq<char> {
    "<td title=\""@ + comma_text(tokens) + "\">"@ + compact_text(tokens, scaled) + "</td>"@
}

fn count_cell_html(tokens: i64, scaled: &str) -> (cell: String)
    ensures
        cell@ == count_cell(tokens, scaled@),
{
    let mut out = "<td title=\"".to_owned();
    out.append(full_tokens(tokens).as_str());
    out.append("\">");
    out.append(compact_tokens(tokens, scaled).as_str());
    out.append("</td>");
    out
}

/// The row of one model.
pub open spec fn model_row(model: Seq<char>, usage: Usage, words: ModelWordsView) -> Seq<char> {
    "<tr><td><span class=\"model-name\">"@ + html_escaped(model) + "</span></td>"@ + count_cell(
        usage.total_tokens,
        words.total,
    ) + count_cell(usage.input_tokens, words.input) + count_cell(
        usage.cached_input_tokens,
        words.cached,
    ) + count_cell(usage.output_tokens, words.output) + count_cell(
        usage.reasoning_output_tokens,
        words.reasoning,
    ) + "<td class=\"cost\">"@ + dollars_text(words.cost) + "</td></tr>"@
}

fn model_row_html(model: &str, usage: &Usage, words: &ModelWords) -> (row: String)
    ensures
        row@ == model_row(model@, *usage, words@),
{
    let mut out = "<tr><td><span class=\"model-name\">".to_owned();
    out.append(html_escape(model).as_str());
    out.append("</span></td>");
    out.append(count_cell_html(usage.total_tokens, words.total.as_str()).as_str());
    out.append(count_cell_html(usage.input_tokens, words.input.as_str()).as_str());
    out.append(count_cell_html(usage.cached_input_tokens, words.cached.as_str()).as_str());
    out.append(count_cell_html(usage.output_tokens, words.output.as_str()).as_str());
    out.append(count_cell_html(usage.reasoning_output_tokens, words.reasoning.as_str()).as_str());
    out.append("<td class=\"cost\">");
    out.append(dollars(&words.cost).as_str());
    out.append("</td></tr>");
    out
}

/// The rows of some models.
pub open spec fn model_rows(top: Models, words: Seq<ModelWordsView>) -> Seq<char>
    decreases top.len(),
{
    if top.len() == 0 {
        Seq::empty()
    } else {
        model_rows(top.drop_last(), words) + model_row(
            top.last().0,
            top.last().1,
            words[top.len() - 1],
        )
    }
}

fn model_rows_html(top: &Vec<(String, Usage)>, words: &Vec<ModelWords>) -> (rows: String)
    requires
        words@.len() == top@.len(),
    ensures
        rows@ == model_rows(listed(top@), words@.map_values(|m: ModelWords| m@)),
{
    let ghost all = listed(top@);
    let ghost said = words@.map_values(|m: ModelWords| m@);
    let mut out = String::new();
    let mut i: usize = 0;
    proof {
        assert(out@ =~= model_rows(all.take(0), said));
    }
    while i < top.len()
        invariant
            i <= top@.len(),
            words@.len() == top@.len(),
            all == listed(top@),
            said == words@.map_values(|m: ModelWords| m@),
            out@ == model_rows(all.take(i as int), said),
        decreases top@.len() - i,
    {
        proof {
            assert(all.take(i + 1).drop_last() =~= all.take(i as int));
            assert(all.take(i + 1).last() == (top@[i as int].0@, top@[i as int].1));
        }
        out.append(model_row_html(top[i].0.as_str(), &top[i].1, &words[i]).as_str());
        i += 1;
    }
    proof {
        assert(all.take(all.len() as int) =~= all);
    }
    out
}

/// Whether rate limits were reported at all, current or not.
pub open spec fn limits_reported(stats: StatsView) -> bool {
    stats.rate_limits is Some || stats.latest_rate_at is Some
}

/// The percentage and the length of the bar in the card of a window: `known` where rate limits are
/// current, nothing where they were `reported` and expired, and zero where there never were any.
pub open spec fn card_usage(
    current: bool,
    reported: bool,
    known: (Seq<char>, Seq<char>),
) -> Option<(Seq<char>, Seq<char>)> {
    if current {
        Some(known)
    } else if reported {
        None
    } else {
        Some(("0"@, "0.0000"@))
    }
}

fn usage_of_card<'a>(current: bool, reported: bool, percent: &'a str, bar: &'a str) -> (usage:
    Option<(&'a str, &'a str)>)
    ensures
        usage_view(usage) == card_usage(current, reported, (percent@, bar@)),
{
    if current {
        Some((percent, bar))
    } else if reported {
        None
    } else {
        Some(("0", "0.0000"))
    }
}

/// The cards of the rate limits. `reported` is whether there were any at all. Where they expired,
/// the cards say so; they never show a zero in their place.
pub open spec fn rate_cards(
    limits: Option<RateLimitsView>,
    reported: bool,
    times: ShownTimesView,
    words: DetailsWordsView,
) -> Seq<char> {
    rate_card(
        primary_of(limits),
        card_usage(limits is Some, reported, (words.rate.primary_percent, words.primary_bar)),
        times.primary_reset,
        times.primary_clock,
    ) + rate_card(
        secondary_of(limits),
        card_usage(limits is Some, reported, (words.rate.secondary_percent, words.secondary_bar)),
        times.secondary_reset,
        times.secondary_clock,
    ) + pace_card(
        known_pace(limits, words.rate),
        full_name(primary_of(limits).window_duration_mins),
    )
}

fn rate_cards_html(
    limits: &Option<RateLimits>,
    reported: bool,
    times: &ShownTimes,
    words: &DetailsWords,
) -> (cards: String)
    ensures
        cards@ == rate_cards(limits_view(*limits), reported, times@, words@),
{
    let (primary, secondary) = match limits {
        Some(rate) => (rate.primary, rate.secondary),
        None => (WindowLimit::default(), WindowLimit::default()),
    };
    let primary_usage = usage_of_card(
        limits.is_some(),
        reported,
        words.rate.primary_percent.as_str(),
        words.primary_bar.as_str(),
    );
    let secondary_usage = usage_of_card(
        limits.is_some(),
        reported,
        words.rate.secondary_percent.as_str(),
        words.secondary_bar.as_str(),
    );
    let mut out = rate_card_html(
        &primary,
        primary_usage,
        times.primary_reset.as_str(),
        times.primary_clock.as_str(),
    );
    out.append(
        rate_card_html(
            &secondary,
            secondary_usage,
            times.secondary_reset.as_str(),
            times.secondary_clock.as_str(),
        ).as_str(),
    );
    let none: Option<Pace> = None;
    let pace = if window_present(&primary) {
        &words.rate.pace
    } else {
        &none
    };
    out.append(pace_card_html(pace, window_full(primary.window_duration_mins)).as_str());
    out
}

/// Where no rate limits are current, nothing that was known of them shows on the page: neither
/// their percentages nor their bars nor their pace.
pub proof fn law_without_current_limits_the_page_shows_none(
    reported: bool,
    times: ShownTimesView,
    words: DetailsWordsView,
    other: DetailsWordsView,
)
    ensures
        rate_cards(None, reported, times, words) == rate_cards(None, reported, times, other),
{
}

/// Rate limits that expired are not shown as current usage, and no zero stands in their place: the
/// cards of both windows say that their usage is not known, and have no bar.
pub proof fn law_expired_limits_are_not_shown_as_zero(
    stats: StatsView,
    now: i64,
    times: ShownTimesView,
    words: DetailsWordsView,
)
    requires
        limits_reported(stats),
        shown_at(stats.rate_limits, now) is None,
    ensures
        rate_cards(shown_at(stats.rate_limits, now), limits_reported(stats), times, words)
            == rate_card(primary_of(None), None, times.primary_reset, times.primary_clock)
            + rate_card(secondary_of(None), None, times.secondary_reset, times.secondary_clock)
            + pace_card(None, full_name(primary_of(None).window_duration_mins)),
{
}

/// The plan on the page: nothing where no rate limits are current.
pub open spec fn page_plan(limits: Option<RateLimitsView>) -> Seq<char> {
    match limits {
        Some(rate) => html_escaped(plan_shown(rate.plan_type)),
        None => ""@,
    }
}

/// The page of details.
pub open spec fn details_html(
    stats: StatsView,
    models: Models,
    limits: Option<RateLimitsView>,
    times: ShownTimesView,
    month_range: Seq<char>,
    words: DetailsWordsView,
) -> Seq<char> {
    PAGE_START@ + page_plan(limits) + HEADER_END@ + rate_cards(
        limits,
        limits_reported(stats),
        times,
        words,
    ) + settings_cards(words.party_mode, words.refresh_interval) + cost_card(
        "Today's cost"@,
        stats.today,
        words.today_cost,
        None,
    ) + cost_card("Monthly cost"@, stats.month, words.month_cost, Some(month_range)) + cost_card(
        "All-time estimate"@,
        stats.total,
        words.total_cost,
        None,
    ) + breakdown_card(stats.total, unpriced_sum(models, words.priced)) + TABLE_START@ + model_rows(
        leading(ranked(models)),
        words.models,
    ) + TABLE_END@ + FOOTER_START@ + decimal(stats.events_seen as nat) + FOOTER_FILES@ + decimal(
        stats.files_seen as nat,
    ) + PAGE_END@
}

/// The page of details. `limits` are the current ones, if there are any.
pub fn write_details_html(
    stats: &Stats,
    limits: &Option<RateLimits>,
    times: &ShownTimes,
    month_range: &str,
    words: &DetailsWords,
) -> (html: String)
    requires
        words_fit(listed(stats.by_model.entries@), words@),
    ensures
        html@ == details_html(
            stats@,
            listed(stats.by_model.entries@),
            limits_view(*limits),
            times@,
            month_range@,
            words@,
        ),
{
    let top = top_models(&stats.by_model);
    let plan = match limits {
        Some(rate) => html_escape(display_plan(rate.plan_type.as_str())),
        None => "".to_owned(),
    };
    let mut out = PAGE_START.to_owned();
    out.append(plan.as_str());
    out.append(HEADER_END);
    let reported = stats.rate_limits.is_some() || stats.latest_rate_at.is_some();
    out.append(rate_cards_html(limits, reported, times, words).as_str());
    out.append(settings_cards_html(words.party_mode, words.refresh_interval.as_str()).as_str());
    out.append(
        cost_card_html("Today's cost", &stats.today, &words.today_cost, None).as_str(),
    );
    out.append(
        cost_card_html("Monthly cost", &stats.month, &words.month_cost, Some(month_range)).as_str(),
    );
    out.append(
        cost_card_html("All-time estimate", &stats.total, &words.total_cost, None).as_str(),
    );
    let unpriced: i64 = unpriced_tokens(&stats.by_model, &words.priced);
    out.append(breakdown_card_html(&stats.total, unpriced).as_str());
    out.append(TABLE_START);
    out.append(model_rows_html(&top, &words.models).as_str());
    out.append(TABLE_END);
    out.append(FOOTER_START);
    out.append(usize_text(stats.events_seen).as_str());
    out.append(FOOTER_FILES);
    out.append(usize_text(stats.files_seen).as_str());
    out.append(PAGE_END);
    out
}

/// The page of details at `now`, in month `m`. Rate limits that are no longer current are left
/// out.
pub open spec fn details_html_at(
    stats: StatsView,
    models: Models,
    words: DetailsWordsView,
    now: TimePoint,
    offsets: LocalOffsets,
    m: Month,
) -> Seq<char> {
    let limits = shown_at(stats.rate_limits, now.secs);
    details_html(
        stats,
        models,
        limits,
        times_at(limits, stats.status_fetched_at, now, offsets),
        month_range_of(m),
        words,
    )
}

/// The page of details at `now`, in month `m`.
pub fn make_details_html_at(
    stats: &Stats,
    words: &DetailsWords,
    now: TimePoint,
    offsets: LocalOffsets,
    m: Month,
) -> (html: String)
    requires
        words_fit(listed(stats.by_model.entries@), words@),
        is_reading(now),
        offsets.wf(),
    ensures
        html@ == details_html_at(
            stats@,
            listed(stats.by_model.entries@),
            words@,
            now,
            offsets,
            m,
        ),
{
    let month_range = month_range_text(m);
    let limits = current_limits_at(stats, now.secs);
    let times = shown_times_at(&limits, stats.status_fetched_at, now, offsets);
    write_details_html(stats, &limits, &times, month_range.as_str(), words)
}

/// The page of details, now.
pub fn make_details_html(stats: &Stats, words: &DetailsWords) -> (html: String)
    requires
        words_fit(listed(stats.by_model.entries@), words@),
    ensures
        exists|now: TimePoint, offsets: LocalOffsets, day_at: TimePoint, day: Day|
            is_reading(now) && was_read(now) && offsets.wf() && offsets.were_read(stats@)
                && is_reading(day_at) && #[trigger] day_fits(day_at, day) && day_was_read(
                day_at,
                day,
            ) && html@ == #[trigger] details_html_at(
                stats@,
                listed(stats.by_model.entries@),
                words@,
                now,
                offsets,
                day.spec_month(),
            ),
{
    let day = today();
    let now = clock_now();
    let offsets = local_offsets(stats);
    make_details_html_at(stats, words, now, offsets, day.month_of())
}

proof fn lemma_itself(s: Seq<char>)
    ensures
        contains_text(s, s),
{
    law_a_text_holds_its_parts(Seq::empty(), s, Seq::empty());
    assert(Seq::empty() + s + Seq::empty() =~= s);
}

proof fn lemma_one_more(s: Seq<char>, more: Seq<char>)
    ensures
        contains_text(s + more, more),
        forall|part: Seq<char>| #[trigger]
            contains_text(s, part) ==> contains_text(s + more, part),
{
    law_a_text_holds_its_parts(s, more, Seq::empty());
    assert(s + more + Seq::empty() =~= s + more);
    assert forall|part: Seq<char>| #[trigger] contains_text(s, part) implies contains_text(
        s + more,
        part,
    ) by {
        let i = choose|i: int| occurs_at(s, part, i);
        assert((s + more).subrange(i, i + part.len()) =~= s.subrange(i, i + part.len()));
        assert(occurs_at(s + more, part, i));
    }
}

proof fn lemma_two_more(s: Seq<char>, label: Seq<char>, more: Seq<char>)
    ensures
        contains_text(s + label + more, label + more),
        forall|part: Seq<char>| #[trigger]
            contains_text(s, part) ==> contains_text(s + label + more, part),
{
    lemma_grouping(s, label, more);
    lemma_one_more(s, label + more);
}

proof fn lemma_grouping(a: Seq<char>, b: Seq<char>, c: Seq<char>)
    ensures
        a + b + c == a + (b + c),
{
    assert(a + b + c =~= a + (b + c));
}

/// The details say each thing under its own name: the plan, the login, the source and the time of the
/// status; the tokens of the day, of the month and of all time with what they cost; each kind of tokens;
/// the tokens without a price; and how many events were seen in how many files.
#[verifier::rlimit(30)]
pub proof fn law_the_details_say_each_thing_under_its_name(
    stats: StatsView,
    models: Models,
    limits: Option<RateLimitsView>,
    times: ShownTimesView,
    words: DetailsWordsView,
)
    ensures
        ({
            let text = details_text(stats, models, limits, times, words);
            &&& contains_text(
                text,
                "\nToday: "@ + comma_text(stats.today.total_tokens) + " tokens | "@ + dollars_text(
                    words.today_cost,
                ),
            )
            &&& contains_text(
                text,
                "\nThis month: "@ + comma_text(stats.month.total_tokens) + " tokens | "@
                    + dollars_text(words.month_cost),
            )
            &&& contains_text(
                text,
                "\nAll-time: "@ + comma_text(stats.total.total_tokens) + " tokens | "@
                    + dollars_text(words.total_cost),
            )
            &&& words.party_mode ==> contains_text(text, "\nParty mode: "@ + "on"@)
            &&& !words.party_mode ==> contains_text(text, "\nParty mode: "@ + "off"@)
            &&& contains_text(text, "Codex Status\n\nPlan: "@ + plan_of(limits))
            &&& contains_text(text, "\nAuth: "@ + stats.auth_status)
            &&& contains_text(text, "\nStatus source: "@ + source_name(stats.status_source))
            &&& contains_text(text, "\nLast update: "@ + times.fetched)
            &&& contains_text(text, "\nRefresh interval: "@ + words.refresh_interval)
            &&& contains_text(text, "\n\n"@ + rate_block(limits, times, words.rate))
            &&& contains_text(text, "\n\nToken breakdown\nAll-time input: "@ + comma_text(stats.total.input_tokens))
            &&& contains_text(text, "\nAll-time cached input: "@ + comma_text(stats.total.cached_input_tokens))
            &&& contains_text(text, "\nAll-time output: "@ + comma_text(stats.total.output_tokens))
            &&& contains_text(text, "\nAll-time reasoning: "@ + comma_text(stats.total.reasoning_output_tokens))
            &&& contains_text(text, "\nSkipped with no public API price: "@ + comma_text(unpriced_sum(models, words.priced)))
            &&& contains_text(text, "\n\nModels\n"@ + model_lines(leading(ranked(models)), words.models))
            &&& contains_text(text, "\n\nJSONL events: "@ + decimal(stats.events_seen as nat))
            &&& contains_text(text, " from "@ + decimal(stats.files_seen as nat))
        }),
{
    let party = if words.party_mode {
        "on"@
    } else {
        "off"@
    };
    let today = "\nToday: "@ + comma_text(stats.today.total_tokens) + " tokens | "@ + dollars_text(
        words.today_cost,
    );
    let month = "\nThis month: "@ + comma_text(stats.month.total_tokens) + " tokens | "@
        + dollars_text(words.month_cost);
    let total = "\nAll-time: "@ + comma_text(stats.total.total_tokens) + " tokens | "@
        + dollars_text(words.total_cost);
    let t0 = "Codex Status\n\nPlan: "@ + plan_of(limits);
    lemma_itself(t0);
    lemma_two_more(t0, "\nAuth: "@, stats.auth_status);
    let t1 = t0 + "\nAuth: "@ + stats.auth_status;
    lemma_two_more(t1, "\nStatus source: "@, source_name(stats.status_source));
    let t2 = t1 + "\nStatus source: "@ + source_name(stats.status_source);
    lemma_two_more(t2, "\nLast update: "@, times.fetched);
    let t3 = t2 + "\nLast update: "@ + times.fetched;
    lemma_two_more(t3, "\nParty mode: "@, party);
    let t4 = t3 + "\nParty mode: "@ + party;
    lemma_two_more(t4, "\nRefresh interval: "@, words.refresh_interval);
    let t5 = t4 + "\nRefresh interval: "@ + words.refresh_interval;
    lemma_two_more(t5, "\n\n"@, rate_block(limits, times, words.rate));
    let t6 = t5 + "\n\n"@ + rate_block(limits, times, words.rate);
    lemma_one_more(t6, "\n\nLocal Codex session tokens (not OpenCode)"@);
    let t7 = t6 + "\n\nLocal Codex session tokens (not OpenCode)"@;
    lemma_one_more(t7, today);
    let t8 = t7 + today;
    lemma_one_more(t8, month);
    let t9 = t8 + month;
    lemma_one_more(t9, total);
    let t10 = t9 + total;
    lemma_two_more(t10, "\n\nToken breakdown\nAll-time input: "@, comma_text(stats.total.input_tokens));
    let t11 = t10 + "\n\nToken breakdown\nAll-time input: "@ + comma_text(stats.total.input_tokens);
    lemma_two_more(t11, "\nAll-time cached input: "@, comma_text(stats.total.cached_input_tokens));
    let t12 = t11 + "\nAll-time cached input: "@ + comma_text(stats.total.cached_input_tokens);
    lemma_two_more(t12, "\nAll-time output: "@, comma_text(stats.total.output_tokens));
    let t13 = t12 + "\nAll-time output: "@ + comma_text(stats.total.output_tokens);
    lemma_two_more(t13, "\nAll-time reasoning: "@, comma_text(stats.total.reasoning_output_tokens));
    let t14 = t13 + "\nAll-time reasoning: "@ + comma_text(stats.total.reasoning_output_tokens);
    lemma_two_more(t14, "\nSkipped with no public API price: "@, comma_text(unpriced_sum(models, words.priced)));
    let t15 = t14 + "\nSkipped with no public API price: "@ + comma_text(unpriced_sum(models, words.priced));
    lemma_two_more(t15, "\n\nModels\n"@, model_lines(leading(ranked(models)), words.models));
    let t16 = t15 + "\n\nModels\n"@ + model_lines(leading(ranked(models)), words.models);
    lemma_two_more(t16, "\n\nJSONL events: "@, decimal(stats.events_seen as nat));
    let t17 = t16 + "\n\nJSONL events: "@ + decimal(stats.events_seen as nat);
    lemma_two_more(t17, " from "@, decimal(stats.files_seen as nat));
    let t18 = t17 + " from "@ + decimal(stats.files_seen as nat);
    lemma_one_more(t18, " files\n"@);
    let t19 = t18 + " files\n"@;
    assert(t19 == details_text(stats, models, limits, times, words));
}

/// The details say of each window that is current its name, its usage and when it resets, the primary
/// one first, and the pace; where none is current they say so.
#[verifier::rlimit(30)]
pub proof fn law_the_details_say_what_is_used_of_each_window(
    rate: RateLimitsView,
    times: ShownTimesView,
    words: RateWordsView,
)
    ensures
        ({
            let block = rate_block(Some(rate), times, words);
            let pace = if rate.primary.resets_at is Some {
                words.pace
            } else {
                None
            };
            let expected = match pace {
                Some(p) => p.expected,
                None => "0.0"@,
            };
            &&& contains_text(
                block,
                "Rate limits (Codex/ChatGPT account)\n"@ + (short_name(
                    rate.primary.window_duration_mins,
                ) + ": "@ + words.primary_percent + "% used | reset in "@ + times.primary_reset
                    + " at "@ + times.primary_clock),
            )
            &&& contains_text(
                block,
                "\n"@ + (short_name(rate.secondary.window_duration_mins) + ": "@
                    + words.secondary_percent + "% used | reset in "@ + times.secondary_reset
                    + " at "@ + times.secondary_clock),
            )
            &&& contains_text(block, "\nPace: "@ + pace_words(pace))
            &&& contains_text(block, " | expected "@ + expected)
        }),
        rate_block(None, times, words)
            == "Rate limits\nCodex status unavailable (no recent account snapshot)"@,
{
    let pace = if rate.primary.resets_at is Some {
        words.pace
    } else {
        None
    };
    let expected = match pace {
        Some(p) => p.expected,
        None => "0.0"@,
    };
    let first = short_name(rate.primary.window_duration_mins) + ": "@ + words.primary_percent
        + "% used | reset in "@ + times.primary_reset + " at "@ + times.primary_clock;
    let second = short_name(rate.secondary.window_duration_mins) + ": "@ + words.secondary_percent
        + "% used | reset in "@ + times.secondary_reset + " at "@ + times.secondary_clock;
    let t0 = "Rate limits (Codex/ChatGPT account)\n"@ + first;
    lemma_itself(t0);
    lemma_two_more(t0, "\n"@, second);
    let t1 = t0 + "\n"@ + second;
    lemma_two_more(t1, "\nPace: "@, pace_words(pace));
    let t2 = t1 + "\nPace: "@ + pace_words(pace);
    lemma_two_more(t2, " | expected "@, expected);
    let t3 = t2 + " | expected "@ + expected;
    lemma_one_more(t3, "%"@);
    let t4 = t3 + "%"@;
    assert(t4 == rate_block(Some(rate), times, words));
}

/// The details name each leading model with its own counts, each under its own name, and with its own
/// cost.
pub proof fn law_the_details_name_each_leading_model(
    top: Models,
    words: Seq<ModelWordsView>,
    i: int,
)
    requires
        0 <= i < top.len() == words.len(),
    ensures
        ({
            let u = top[i].1;
            contains_text(
                model_lines(top, words),
                top[i].0 + ": "@ + comma_text(u.total_tokens) + " tokens | input "@ + comma_text(
                    u.input_tokens,
                ) + " | cached "@ + comma_text(u.cached_input_tokens) + " | output "@ + comma_text(
                    u.output_tokens,
                ) + " | reasoning "@ + comma_text(u.reasoning_output_tokens) + " | cost "@
                    + dollars_text(words[i].cost),
            )
        }),
{
    lemma_model_named(top, words, i);
}

proof fn lemma_model_named(top: Models, words: Seq<ModelWordsView>, i: int)
    requires
        0 <= i < top.len() <= words.len(),
    ensures
        contains_text(model_lines(top, words), model_line(top[i].0, top[i].1, words[i])),
    decreases top.len(),
{
    let last = model_line(top.last().0, top.last().1, words[top.len() - 1]);
    lemma_itself(last);
    if top.len() > 1 {
        let front = top.drop_last();
        lemma_one_more(model_lines(front, words) + "\n"@, last);
        if i < top.len() - 1 {
            lemma_model_named(front, words, i);
            assert(front[i] == top[i]);
            lemma_one_more(model_lines(front, words), "\n"@);
        }
    }
}

/// The page holds the cards of the rate limits and of the settings; a card for the tokens and the cost
/// of the day, of the month with its days, and of all time; a card for each kind of tokens and for those
/// without a price; the rows of the leading models; and how many events were seen in how many files.
#[verifier::rlimit(30)]
pub proof fn law_the_page_holds_a_card_for_each_thing(
    stats: StatsView,
    models: Models,
    limits: Option<RateLimitsView>,
    times: ShownTimesView,
    month_range: Seq<char>,
    words: DetailsWordsView,
)
    ensures
        ({
            let page = details_html(stats, models, limits, times, month_range, words);
            &&& contains_text(
                page,
                rate_cards(
                    limits,
                    stats.rate_limits is Some || stats.latest_rate_at is Some,
                    times,
                    words,
                ),
            )
            &&& contains_text(page, settings_cards(words.party_mode, words.refresh_interval))
            &&& contains_text(
                page,
                cost_card("Today's cost"@, stats.today, words.today_cost, None),
            )
            &&& contains_text(
                page,
                cost_card("Monthly cost"@, stats.month, words.month_cost, Some(month_range)),
            )
            &&& contains_text(
                page,
                cost_card("All-time estimate"@, stats.total, words.total_cost, None),
            )
            &&& contains_text(
                page,
                breakdown_card(stats.total, unpriced_sum(models, words.priced)),
            )
            &&& contains_text(page, model_rows(leading(ranked(models)), words.models))
            &&& contains_text(page, FOOTER_START@ + decimal(stats.events_seen as nat))
            &&& contains_text(page, FOOTER_FILES@ + decimal(stats.files_seen as nat))
            &&& limits is Some ==> contains_text(
                page,
                html_escaped(plan_shown(limits->0.plan_type)),
            )
        }),
{
    let t0 = PAGE_START@;
    lemma_itself(t0);
    lemma_one_more(t0, page_plan(limits));
    let t1 = t0 + page_plan(limits);
    lemma_one_more(t1, HEADER_END@);
    let t2 = t1 + HEADER_END@;
    lemma_one_more(t2, rate_cards(limits, limits_reported(stats), times, words));
    let t3 = t2 + rate_cards(limits, limits_reported(stats), times, words);
    lemma_one_more(t3, settings_cards(words.party_mode, words.refresh_interval));
    let t4 = t3 + settings_cards(words.party_mode, words.refresh_interval);
    lemma_one_more(t4, cost_card("Today's cost"@, stats.today, words.today_cost, None));
    let t5 = t4 + cost_card("Today's cost"@, stats.today, words.today_cost, None);
    lemma_one_more(t5, cost_card("Monthly cost"@, stats.month, words.month_cost, Some(month_range)));
    let t6 = t5 + cost_card("Monthly cost"@, stats.month, words.month_cost, Some(month_range));
    lemma_one_more(t6, cost_card("All-time estimate"@, stats.total, words.total_cost, None));
    let t7 = t6 + cost_card("All-time estimate"@, stats.total, words.total_cost, None);
    lemma_one_more(t7, breakdown_card(stats.total, unpriced_sum(models, words.priced)));
    let t8 = t7 + breakdown_card(stats.total, unpriced_sum(models, words.priced));
    lemma_one_more(t8, TABLE_START@);
    let t9 = t8 + TABLE_START@;
    lemma_one_more(t9, model_rows(leading(ranked(models)), words.models));
    let t10 = t9 + model_rows(leading(ranked(models)), words.models);
    lemma_one_more(t10, TABLE_END@);
    let t11 = t10 + TABLE_END@;
    lemma_two_more(t11, FOOTER_START@, decimal(stats.events_seen as nat));
    let t12 = t11 + FOOTER_START@ + decimal(stats.events_seen as nat);
    lemma_two_more(t12, FOOTER_FILES@, decimal(stats.files_seen as nat));
    let t13 = t12 + FOOTER_FILES@ + decimal(stats.files_seen as nat);
    lemma_one_more(t13, PAGE_END@);
    let t14 = t13 + PAGE_END@;
    assert(t14 == details_html(stats, models, limits, times, month_range, words));
}

/// A card of a cost shows what it is the cost of, the amount, and the tokens; that of the month also its
/// days.
#[verifier::rlimit(30)]
pub proof fn law_cost_cards_show_cost_and_tokens(
    label: Seq<char>,
    usage: Usage,
    cost: Option<MoneyView>,
    days: Seq<char>,
)
    ensures
        ({
            let card = cost_card(label, usage, cost, None);
            &&& contains_text(card, COST_CARD_START@ + label)
            &&& contains_text(card, COST_CARD_METRIC@ + dollars_text(cost))
            &&& contains_text(card, COST_CARD_TOKENS@ + comma_text(usage.total_tokens))
        }),
        ({
            let card = cost_card(label, usage, cost, Some(days));
            &&& contains_text(card, COST_CARD_START@ + label)
            &&& contains_text(card, COST_CARD_METRIC@ + dollars_text(cost))
            &&& contains_text(card, COST_CARD_TOKENS@ + comma_text(usage.total_tokens))
            &&& contains_text(card, COST_CARD_RANGE@ + html_escaped(days))
        }),
{
    let head = COST_CARD_START@ + label + COST_CARD_METRIC@ + dollars_text(cost)
        + COST_CARD_TOKENS@ + comma_text(usage.total_tokens) + COST_CARD_AFTER_TOKENS@;
    let t0 = COST_CARD_START@ + label;
    lemma_itself(t0);
    lemma_two_more(t0, COST_CARD_METRIC@, dollars_text(cost));
    let t1 = t0 + COST_CARD_METRIC@ + dollars_text(cost);
    lemma_two_more(t1, COST_CARD_TOKENS@, comma_text(usage.total_tokens));
    let t2 = t1 + COST_CARD_TOKENS@ + comma_text(usage.total_tokens);
    lemma_one_more(t2, COST_CARD_AFTER_TOKENS@);
    let t3 = t2 + COST_CARD_AFTER_TOKENS@;
    assert(t3 == head);
    lemma_one_more(head, COST_CARD_END@);
    lemma_two_more(head, COST_CARD_RANGE@, html_escaped(days));
    let ranged = head + COST_CARD_RANGE@ + html_escaped(days);
    lemma_one_more(ranged, COST_CARD_AFTER_RANGE@);
    lemma_one_more(ranged + COST_CARD_AFTER_RANGE@, COST_CARD_END@);
}

/// The card of the tokens shows each kind of them under its own name.
#[verifier::rlimit(30)]
pub proof fn law_the_breakdown_shows_each_kind_of_tokens(total: Usage, unpriced: i64)
    ensures
        ({
            let card = breakdown_card(total, unpriced);
            let row = |label: Seq<char>, n: i64| BREAKDOWN_ROW@ + label + BREAKDOWN_VALUE@
                + comma_text(n) + BREAKDOWN_ROW_END@;
            &&& contains_text(card, row("Input"@, total.input_tokens))
            &&& contains_text(card, row("Cached input"@, total.cached_input_tokens))
            &&& contains_text(card, row("Output"@, total.output_tokens))
            &&& contains_text(card, row("Reasoning"@, total.reasoning_output_tokens))
            &&& contains_text(card, row("Unpriced"@, unpriced))
        }),
{
    let t0 = BREAKDOWN_START@;
    lemma_itself(t0);
    lemma_one_more(t0, breakdown_row("Input"@, total.input_tokens));
    let t1 = t0 + breakdown_row("Input"@, total.input_tokens);
    lemma_one_more(t1, breakdown_row("Cached input"@, total.cached_input_tokens));
    let t2 = t1 + breakdown_row("Cached input"@, total.cached_input_tokens);
    lemma_one_more(t2, breakdown_row("Output"@, total.output_tokens));
    let t3 = t2 + breakdown_row("Output"@, total.output_tokens);
    lemma_one_more(t3, breakdown_row("Reasoning"@, total.reasoning_output_tokens));
    let t4 = t3 + breakdown_row("Reasoning"@, total.reasoning_output_tokens);
    lemma_one_more(t4, breakdown_row("Unpriced"@, unpriced));
    let t5 = t4 + breakdown_row("Unpriced"@, unpriced);
    lemma_one_more(t5, BREAKDOWN_END@);
    let t6 = t5 + BREAKDOWN_END@;
    assert(t6 == breakdown_card(total, unpriced));
}

/// The page has a row for each leading model, with its name and its own counts in their order, each in
/// full and short, and with its own cost.
pub proof fn law_the_page_has_a_row_for_each_leading_model(
    top: Models,
    words: Seq<ModelWordsView>,
    i: int,
)
    requires
        0 <= i < top.len() == words.len(),
    ensures
        ({
            let u = top[i].1;
            let w = words[i];
            let cell = |n: i64, scaled: Seq<char>| "<td title=\""@ + comma_text(n) + "\">"@
                + compact_text(n, scaled) + "</td>"@;
            contains_text(
                model_rows(top, words),
                "<tr><td><span class=\"model-name\">"@ + html_escaped(top[i].0) + "</span></td>"@
                    + cell(u.total_tokens, w.total) + cell(u.input_tokens, w.input) + cell(
                    u.cached_input_tokens,
                    w.cached,
                ) + cell(u.output_tokens, w.output) + cell(u.reasoning_output_tokens, w.reasoning)
                    + "<td class=\"cost\">"@ + dollars_text(w.cost) + "</td></tr>"@,
            )
        }),
{
    lemma_model_shown(top, words, i);
}

proof fn lemma_model_shown(top: Models, words: Seq<ModelWordsView>, i: int)
    requires
        0 <= i < top.len() <= words.len(),
    ensures
        contains_text(model_rows(top, words), model_row(top[i].0, top[i].1, words[i])),
    decreases top.len(),
{
    let front = top.drop_last();
    let last = model_row(top.last().0, top.last().1, words[top.len() - 1]);
    lemma_one_more(model_rows(front, words), last);
    if i < top.len() - 1 {
        lemma_model_shown(front, words, i);
        assert(front[i] == top[i]);
    }
}

/// The card of a window shows its usage, as long as it is known, in words and as a bar, and when it
/// resets; where the usage is no longer known it shows no bar and no zero.
pub proof fn law_window_cards_show_the_usage(
    w: WindowLimit,
    percent: Seq<char>,
    bar: Seq<char>,
    reset: Seq<char>,
    clock: Seq<char>,
)
    ensures
        ({
            let card = rate_card(w, Some((percent, bar)), reset, clock);
            &&& contains_text(card, RATE_CARD_METRIC@ + (percent + "%"@))
            &&& contains_text(card, RATE_CARD_BAR@ + bar + RATE_CARD_BAR_END@)
            &&& contains_text(card, RATE_CARD_RESET@ + html_escaped(reset))
            &&& contains_text(card, RATE_CARD_CLOCK@ + html_escaped(clock))
            &&& w.resets_at is Some ==> contains_text(
                card,
                RATE_CARD_START@ + full_name(w.window_duration_mins),
            )
            &&& w.resets_at is None ==> contains_text(card, RATE_CARD_START@ + "n/a"@)
            &&& contains_text(card, RATE_CARD_COLOR@ + usage_color(w.used_percent))
        }),
        ({
            let card = rate_card(w, None, reset, clock);
            &&& contains_text(card, RATE_CARD_METRIC@ + "n/a"@)
            &&& contains_text(card, RATE_CARD_RESET@ + html_escaped(reset))
            &&& contains_text(card, RATE_CARD_CLOCK@ + html_escaped(clock))
        }),
{
    lemma_window_card(w, Some((percent, bar)), reset, clock);
    lemma_window_card(w, None, reset, clock);
}

#[verifier::rlimit(30)]
proof fn lemma_window_card(
    w: WindowLimit,
    usage: Option<(Seq<char>, Seq<char>)>,
    reset: Seq<char>,
    clock: Seq<char>,
)
    ensures
        ({
            let card = rate_card(w, usage, reset, clock);
            &&& contains_text(card, RATE_CARD_START@ + card_title(w))
            &&& contains_text(card, RATE_CARD_COLOR@ + usage_color(w.used_percent))
            &&& contains_text(
                card,
                RATE_CARD_METRIC@ + (match usage {
                    Some(u) => u.0 + "%"@,
                    None => "n/a"@,
                }),
            )
            &&& usage is Some ==> contains_text(card, rate_bar((usage->0).1))
            &&& contains_text(card, RATE_CARD_RESET@ + html_escaped(reset))
            &&& contains_text(card, RATE_CARD_CLOCK@ + html_escaped(clock))
        }),
{
    let metric = match usage {
        Some(u) => u.0 + "%"@,
        None => "n/a"@,
    };
    let bar = match usage {
        Some(u) => rate_bar(u.1),
        None => ""@,
    };
    let t0 = RATE_CARD_START@ + card_title(w);
    lemma_itself(t0);
    lemma_two_more(t0, RATE_CARD_COLOR@, usage_color(w.used_percent));
    let t1 = t0 + RATE_CARD_COLOR@ + usage_color(w.used_percent);
    lemma_two_more(t1, RATE_CARD_METRIC@, metric);
    let t2 = t1 + RATE_CARD_METRIC@ + metric;
    lemma_one_more(t2, RATE_CARD_METRIC_END@);
    let t3 = t2 + RATE_CARD_METRIC_END@;
    lemma_one_more(t3, bar);
    let t4 = t3 + bar;
    lemma_two_more(t4, RATE_CARD_RESET@, html_escaped(reset));
    let t5 = t4 + RATE_CARD_RESET@ + html_escaped(reset);
    lemma_two_more(t5, RATE_CARD_CLOCK@, html_escaped(clock));
    let t6 = t5 + RATE_CARD_CLOCK@ + html_escaped(clock);
    lemma_one_more(t6, RATE_CARD_END@);
    let t7 = t6 + RATE_CARD_END@;
    assert(t7 == rate_card(w, usage, reset, clock));
}

/// The card of the pace shows it in words and in its colour, with what an even pace would have used of
/// the window by now.
pub proof fn law_the_pace_card_shows_the_pace(pace: Option<PaceView>, window: Seq<char>)
    ensures
        ({
            let card = pace_card(pace, window);
            let expected = match pace {
                Some(p) => p.expected,
                None => "0.0"@,
            };
            &&& contains_text(card, PACE_CARD_START@ + pace_tint(pace))
            &&& contains_text(card, PACE_CARD_METRIC@ + html_escaped(pace_words(pace)))
            &&& contains_text(card, PACE_CARD_EXPECTED@ + expected)
            &&& contains_text(card, PACE_CARD_WINDOW@ + window)
        }),
{
    let expected = match pace {
        Some(p) => p.expected,
        None => "0.0"@,
    };
    let t0 = PACE_CARD_START@ + pace_tint(pace);
    lemma_itself(t0);
    lemma_two_more(t0, PACE_CARD_METRIC@, html_escaped(pace_words(pace)));
    let t1 = t0 + PACE_CARD_METRIC@ + html_escaped(pace_words(pace));
    lemma_two_more(t1, PACE_CARD_EXPECTED@, expected);
    let t2 = t1 + PACE_CARD_EXPECTED@ + expected;
    lemma_two_more(t2, PACE_CARD_WINDOW@, window);
    let t3 = t2 + PACE_CARD_WINDOW@ + window;
    lemma_one_more(t3, PACE_CARD_END@);
    assert(t3 + PACE_CARD_END@ == pace_card(pace, window));
}

/// The cards of the settings show whether it is party mode, and the interval of the refreshes.
pub proof fn law_the_settings_cards_show_the_settings(party_mode: bool, interval: Seq<char>)
    ensures
        ({
            let cards = settings_cards(party_mode, interval);
            &&& party_mode ==> contains_text(cards, PARTY_CARD_START@ + "On"@) && contains_text(
                cards,
                PARTY_CARD_NOTE@ + "Confetti enabled"@,
            )
            &&& !party_mode ==> contains_text(cards, PARTY_CARD_START@ + "Off"@) && contains_text(
                cards,
                PARTY_CARD_NOTE@ + "Notifications only"@,
            )
            &&& contains_text(cards, REFRESH_CARD_START@ + interval)
        }),
{
    let mode = if party_mode {
        "On"@
    } else {
        "Off"@
    };
    let note = if party_mode {
        "Confetti enabled"@
    } else {
        "Notifications only"@
    };
    let t0 = PARTY_CARD_START@ + mode;
    lemma_itself(t0);
    lemma_two_more(t0, PARTY_CARD_NOTE@, note);
    let t1 = t0 + PARTY_CARD_NOTE@ + note;
    lemma_one_more(t1, PARTY_CARD_END@);
    let t2 = t1 + PARTY_CARD_END@;
    lemma_two_more(t2, REFRESH_CARD_START@, interval);
    let t3 = t2 + REFRESH_CARD_START@ + interval;
    lemma_one_more(t3, REFRESH_CARD_END@);
    assert(t3 + REFRESH_CARD_END@ == settings_cards(party_mode, interval));
}

/// The cards of the rate limits show the primary window before the secondary one, each with its own
/// usage and its own times, and the pace. Usage that is current is shown as it is, usage that expired is
/// not shown, and where none was ever reported there is none: zero.
pub proof fn law_cards_show_each_window_with_its_own_usage(
    limits: Option<RateLimitsView>,
    reported: bool,
    times: ShownTimesView,
    words: DetailsWordsView,
)
    ensures
        limits is Some ==> ({
            let rate = limits->0;
            let cards = rate_cards(limits, reported, times, words);
            let pace = if rate.primary.resets_at is Some {
                words.rate.pace
            } else {
                None
            };
            cards == rate_card(
                rate.primary,
                Some((words.rate.primary_percent, words.primary_bar)),
                times.primary_reset,
                times.primary_clock,
            ) + rate_card(
                rate.secondary,
                Some((words.rate.secondary_percent, words.secondary_bar)),
                times.secondary_reset,
                times.secondary_clock,
            ) + pace_card(pace, full_name(rate.primary.window_duration_mins))
        }),
        card_usage(true, reported, (words.rate.primary_percent, words.primary_bar)) == Some(
            (words.rate.primary_percent, words.primary_bar),
        ),
        card_usage(false, true, (words.rate.primary_percent, words.primary_bar)) is None,
        card_usage(false, false, (words.rate.primary_percent, words.primary_bar)) == Some(
            ("0"@, "0.0000"@),
        ),
{
}

/// The details at a moment speak of the limits whose primary window resets after it, and of no others.
pub proof fn law_the_details_leave_out_expired_limits(
    stats: StatsView,
    models: Models,
    words: DetailsWordsView,
    now: TimePoint,
    offsets: LocalOffsets,
    m: Month,
)
    ensures
        ({
            let open = match stats.rate_limits {
                Some(rate) => rate.primary.resets_at is Some && rate.primary.resets_at->0
                    > now.secs,
                None => false,
            };
            let limits = if open {
                stats.rate_limits
            } else {
                None
            };
            let times = times_at(limits, stats.status_fetched_at, now, offsets);
            &&& details_text_at(stats, models, words, now, offsets) == details_text(
                stats,
                models,
                limits,
                times,
                words,
            )
            &&& details_html_at(stats, models, words, now, offsets, m) == details_html(
                stats,
                models,
                limits,
                times,
                month_range_of(m),
                words,
            )
        }),
{
}

} // verus!
