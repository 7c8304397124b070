//! Token counts and tables of token counts.
//!
//! Counters are 64-bit and wrap around, so that sums never depend on the order in which they
//! are taken. Where the true sum fits, the counter is the true sum.
use crate::json::{
    holds, lacks, law_members_are_found_by_name, law_values_are_read_as_what_they_are, Json, JsonNumber,
    JsonView,
};
use crate::text::same_text;
use vstd::prelude::*;

verus! {

/// Token counts of one or more events.
#[derive(Clone, Copy, Debug, PartialEq, Eq, Structural)]
pub struct Usage {
    pub input_tokens: i64,
    pub cached_input_tokens: i64,
    pub output_tokens: i64,
    pub reasoning_output_tokens: i64,
    pub total_tokens: i64,
}

/// No tokens.
pub open spec fn no_usage() -> Usage {
    Usage {
        input_tokens: 0,
        cached_input_tokens: 0,
        output_tokens: 0,
        reasoning_output_tokens: 0,
        total_tokens: 0,
    }
}

/// The counts of `a` and `b` together.
pub open spec fn plus(a: Usage, b: Usage) -> Usage {
    Usage {
        input_tokens: a.input_tokens.wrapping_add(b.input_tokens),
        cached_input_tokens: a.cached_input_tokens.wrapping_add(b.cached_input_tokens),
        output_tokens: a.output_tokens.wrapping_add(b.output_tokens),
        reasoning_output_tokens: a.reasoning_output_tokens.wrapping_add(b.reasoning_output_tokens),
        total_tokens: a.total_tokens.wrapping_add(b.total_tokens),
    }
}

/// The integer under `key`, or zero where there is none.
pub open spec fn integer_at(value: JsonView, key: Seq<char>) -> i64 {
    match value.member(key) {
        Some(v) => match v.as_signed() {
            Some(n) => n,
            None => 0,
        },
        None => 0,
    }
}

/// The counts that a JSON object reports.
pub open spec fn reported_usage(value: JsonView) -> Usage {
    Usage {
        input_tokens: integer_at(value, "input_tokens"@),
        cached_input_tokens: integer_at(value, "cached_input_tokens"@),
        output_tokens: integer_at(value, "output_tokens"@),
        reasoning_output_tokens: integer_at(value, "reasoning_output_tokens"@),
        total_tokens: integer_at(value, "total_tokens"@),
    }
}

/// The integer under `key`, or zero where there is none.
pub fn value_i64(value: &Json, key: &str) -> (n: i64)
    ensures
        n == integer_at(value@, key@),
{
    match value.get(key) {
        Some(v) => match v.as_i64() {
            Some(n) => n,
            None => 0,
        },
        None => 0,
    }
}

impl Default for Usage {
    fn default() -> (u: Usage)
        ensures
            u == no_usage(),
    {
        Usage {
            input_tokens: 0,
            cached_input_tokens: 0,
            output_tokens: 0,
            reasoning_output_tokens: 0,
            total_tokens: 0,
        }
    }
}

impl Usage {
    /// Adds the counts of `other`.
    pub fn merge(&mut self, other: &Usage)
        ensures
            *final(self) == plus(*old(self), *other),
    {
        self.input_tokens = self.input_tokens.wrapping_add(other.input_tokens);
        self.cached_input_tokens = self.cached_input_tokens.wrapping_add(other.cached_input_tokens);
        self.output_tokens = self.output_tokens.wrapping_add(other.output_tokens);
        self.reasoning_output_tokens = self.reasoning_output_tokens.wrapping_add(
            other.reasoning_output_tokens,
        );
        self.total_tokens = self.total_tokens.wrapping_add(other.total_tokens);
    }

    /// Adds the counts that `value` reports. A count that is missing or is no integer adds
    /// nothing.
    pub fn add_json(&mut self, value: &Json)
        ensures
            *final(self) == plus(*old(self), reported_usage(value@)),
    {
        let reported = Usage {
            input_tokens: value_i64(value, "input_tokens"),
            cached_input_tokens: value_i64(value, "cached_input_tokens"),
            output_tokens: value_i64(value, "output_tokens"),
            reasoning_output_tokens: value_i64(value, "reasoning_output_tokens"),
            total_tokens: value_i64(value, "total_tokens"),
        };
        self.merge(&reported);
    }

    /// The input tokens that are charged at the full rate.
    pub open spec fn spec_uncached_input(self) -> i64 {
        let uncached = self.input_tokens.wrapping_sub(self.cached_input_tokens);
        if uncached > 0 {
            uncached
        } else {
            0
        }
    }

    /// The input tokens that are charged at the full rate: those that did not come from the
    /// cache, and never fewer than none.
    pub fn uncached_input(&self) -> (n: i64)
        ensures
            n == self.spec_uncached_input(),
            n >= 0,
    {
        let uncached = self.input_tokens.wrapping_sub(self.cached_input_tokens);
        if uncached > 0 {
            uncached
        } else {
            0
        }
    }

    /// The input tokens that are charged at the cached rate.
    pub open spec fn spec_cached_input(self) -> i64 {
        if self.cached_input_tokens > 0 {
            self.cached_input_tokens
        } else {
            0
        }
    }

    /// The input tokens that are charged at the cached rate, never fewer than none.
    pub fn cached_input(&self) -> (n: i64)
        ensures
            n == self.spec_cached_input(),
            n == (if self.cached_input_tokens > 0 {
                self.cached_input_tokens
            } else {
                0
            }),
    {
        if self.cached_input_tokens > 0 {
            self.cached_input_tokens
        } else {
            0
        }
    }
}

proof fn lemma_wrapping_add(a: i64, b: i64, c: i64)
    ensures
        a.wrapping_add(b) == b.wrapping_add(a),
        a.wrapping_add(b).wrapping_add(c) == a.wrapping_add(b.wrapping_add(c)),
        a.wrapping_add(0) == a,
{
}

/// Adding up does not depend on the order: counts add in any order and any grouping.
pub proof fn law_usage_adds_in_any_order(a: Usage, b: Usage, c: Usage)
    ensures
        plus(a, b) == plus(b, a),
        plus(plus(a, b), c) == plus(a, plus(b, c)),
        plus(a, no_usage()) == a,
        plus(no_usage(), a) == a,
{
    lemma_wrapping_add(a.input_tokens, b.input_tokens, c.input_tokens);
    lemma_wrapping_add(a.cached_input_tokens, b.cached_input_tokens, c.cached_input_tokens);
    lemma_wrapping_add(a.output_tokens, b.output_tokens, c.output_tokens);
    lemma_wrapping_add(
        a.reasoning_output_tokens,
        b.reasoning_output_tokens,
        c.reasoning_output_tokens,
    );
    lemma_wrapping_add(a.total_tokens, b.total_tokens, c.total_tokens);
}

/// Where the true sums fit in 64 bits, the counters are the true sums.
pub proof fn law_usage_sums_are_true_sums(a: Usage, b: Usage)
    requires
        i64::MIN <= a.input_tokens + b.input_tokens <= i64::MAX,
        i64::MIN <= a.cached_input_tokens + b.cached_input_tokens <= i64::MAX,
        i64::MIN <= a.output_tokens + b.output_tokens <= i64::MAX,
        i64::MIN <= a.reasoning_output_tokens + b.reasoning_output_tokens <= i64::MAX,
        i64::MIN <= a.total_tokens + b.total_tokens <= i64::MAX,
    ensures
        plus(a, b).input_tokens == a.input_tokens + b.input_tokens,
        plus(a, b).cached_input_tokens == a.cached_input_tokens + b.cached_input_tokens,
        plus(a, b).output_tokens == a.output_tokens + b.output_tokens,
        plus(a, b).reasoning_output_tokens == a.reasoning_output_tokens
            + b.reasoning_output_tokens,
        plus(a, b).total_tokens == a.total_tokens + b.total_tokens,
{
}

/// Each count is read from its own member and from no other: it grows by the integer that the
/// report holds under its name, whatever the other members hold, and stays where there is none.
pub proof fn law_each_count_is_read_from_its_own_member(
    before: Usage,
    report: JsonView,
    value: JsonView,
)
    ensures
        ({
            let after = plus(before, reported_usage(report));
            let n = match value {
                JsonView::Number(JsonNumber { signed: Some(n), .. }) => n as int,
                _ => 0,
            };
            &&& holds(report, "input_tokens"@, value) && i64::MIN <= before.input_tokens + n
                <= i64::MAX ==> after.input_tokens == before.input_tokens + n
            &&& holds(report, "cached_input_tokens"@, value) && i64::MIN
                <= before.cached_input_tokens + n <= i64::MAX ==> after.cached_input_tokens
                == before.cached_input_tokens + n
            &&& holds(report, "output_tokens"@, value) && i64::MIN <= before.output_tokens + n
                <= i64::MAX ==> after.output_tokens == before.output_tokens + n
            &&& holds(report, "reasoning_output_tokens"@, value) && i64::MIN
                <= before.reasoning_output_tokens + n <= i64::MAX ==> after.reasoning_output_tokens
                == before.reasoning_output_tokens + n
            &&& holds(report, "total_tokens"@, value) && i64::MIN <= before.total_tokens + n
                <= i64::MAX ==> after.total_tokens == before.total_tokens + n
            &&& lacks(report, "input_tokens"@) ==> after.input_tokens == before.input_tokens
            &&& lacks(report, "cached_input_tokens"@) ==> after.cached_input_tokens
                == before.cached_input_tokens
            &&& lacks(report, "output_tokens"@) ==> after.output_tokens == before.output_tokens
            &&& lacks(report, "reasoning_output_tokens"@) ==> after.reasoning_output_tokens
                == before.reasoning_output_tokens
            &&& lacks(report, "total_tokens"@) ==> after.total_tokens == before.total_tokens
        }),
{
    law_members_are_found_by_name(report, "input_tokens"@, value);
    law_members_are_found_by_name(report, "cached_input_tokens"@, value);
    law_members_are_found_by_name(report, "output_tokens"@, value);
    law_members_are_found_by_name(report, "reasoning_output_tokens"@, value);
    law_members_are_found_by_name(report, "total_tokens"@, value);
    law_values_are_read_as_what_they_are(value);
}

/// An integer is read from the member that is asked for, and is zero where that is missing or is no
/// integer.
pub proof fn law_integers_are_read_from_the_named_member(
    object: JsonView,
    key: Seq<char>,
    value: JsonView,
)
    ensures
        holds(object, key, value) ==> integer_at(object, key) == (match value {
            JsonView::Number(JsonNumber { signed: Some(n), .. }) => n,
            _ => 0,
        }),
        lacks(object, key) ==> integer_at(object, key) == 0,
{
    law_members_are_found_by_name(object, key, value);
    law_values_are_read_as_what_they_are(value);
}

/// No input token is charged twice and none is left out: those that came from the cache are charged
/// at the cached rate, the others at the full rate, and together they are all. Where more is said
/// to come from the cache than there is, nothing is charged at the full rate; a negative count is
/// not charged at all.
pub proof fn law_each_input_token_is_charged_once(u: Usage)
    ensures
        0 <= u.cached_input_tokens <= u.input_tokens ==> u.spec_uncached_input() == u.input_tokens
            - u.cached_input_tokens && u.spec_cached_input() == u.cached_input_tokens
            && u.spec_uncached_input() + u.spec_cached_input() == u.input_tokens,
        0 <= u.input_tokens < u.cached_input_tokens ==> u.spec_uncached_input() == 0
            && u.spec_cached_input() == u.cached_input_tokens,
        u.cached_input_tokens < 0 ==> u.spec_cached_input() == 0,
        u.cached_input_tokens < 0 <= u.input_tokens - u.cached_input_tokens <= i64::MAX
            ==> u.spec_uncached_input() == u.input_tokens - u.cached_input_tokens,
        u.spec_uncached_input() >= 0,
        u.spec_cached_input() >= 0,
{
}

/// Something that a table can be keyed by.
pub trait Key: View + Sized {
    /// Whether two keys are the same.
    fn same(&self, other: &Self) -> (r: bool)
        ensures
            r == (self@ == other@),
    ;

    /// Another key that is the same.
    fn duplicate(&self) -> (r: Self)
        ensures
            r@ == self@,
    ;
}

impl Key for String {
    fn same(&self, other: &Self) -> (r: bool) {
        same_text(self.as_str(), other.as_str())
    }

    fn duplicate(&self) -> (r: Self) {
        self.clone()
    }
}

/// Whether no key stands twice in a list of pairs.
pub open spec fn distinct<A, B>(s: Seq<(A, B)>) -> bool {
    forall|i: int, j: int| 0 <= i < j < s.len() ==> (#[trigger] s[i]).0 != (#[trigger] s[j]).0
}

/// The map that a list of pairs stands for.
pub open spec fn table_map<A, B>(s: Seq<(A, B)>) -> Map<A, B>
    decreases s.len(),
{
    if s.len() == 0 {
        Map::empty()
    } else {
        table_map(s.drop_last()).insert(s.last().0, s.last().1)
    }
}

/// Everything that a list of counts adds up to.
pub open spec fn table_sum<A>(s: Seq<(A, Usage)>) -> Usage
    decreases s.len(),
{
    if s.len() == 0 {
        no_usage()
    } else {
        plus(table_sum(s.drop_last()), s.last().1)
    }
}

proof fn lemma_distinct_drop<A, B>(s: Seq<(A, B)>)
    requires
        distinct(s),
        s.len() > 0,
    ensures
        distinct(s.drop_last()),
{
    let t = s.drop_last();
    assert forall|i: int, j: int| 0 <= i < j < t.len() implies (#[trigger] t[i]).0 != (
    #[trigger] t[j]).0 by {
        assert(t[i] == s[i] && t[j] == s[j]);
    }
}

pub proof fn lemma_table_at<A, B>(s: Seq<(A, B)>, i: int)
    requires
        distinct(s),
        0 <= i < s.len(),
    ensures
        table_map(s).dom().contains(s[i].0),
        table_map(s)[s[i].0] == s[i].1,
    decreases s.len(),
{
    if i < s.len() - 1 {
        lemma_distinct_drop(s);
        lemma_table_at(s.drop_last(), i);
        assert(s.drop_last()[i] == s[i]);
        assert(s[i].0 != s[s.len() - 1].0);
    }
}

pub proof fn lemma_table_without<A, B>(s: Seq<(A, B)>, k: A)
    requires
        forall|i: int| 0 <= i < s.len() ==> (#[trigger] s[i]).0 != k,
    ensures
        !table_map(s).dom().contains(k),
    decreases s.len(),
{
    if s.len() > 0 {
        let t = s.drop_last();
        assert forall|i: int| 0 <= i < t.len() implies (#[trigger] t[i]).0 != k by {
            assert(t[i] == s[i]);
        }
        lemma_table_without(t, k);
        assert(s[s.len() - 1].0 != k);
    }
}

pub proof fn lemma_table_update<A, B>(s: Seq<(A, B)>, i: int, v: B)
    requires
        distinct(s),
        0 <= i < s.len(),
    ensures
        distinct(s.update(i, (s[i].0, v))),
        table_map(s.update(i, (s[i].0, v))) == table_map(s).insert(s[i].0, v),
    decreases s.len(),
{
    let u = s.update(i, (s[i].0, v));
    assert forall|a: int, b: int| 0 <= a < b < u.len() implies (#[trigger] u[a]).0 != (
    #[trigger] u[b]).0 by {
        assert(u[a].0 == s[a].0 && u[b].0 == s[b].0);
        assert(s[a].0 != s[b].0);
    }
    if i == s.len() - 1 {
        assert(u.drop_last() =~= s.drop_last());
        assert(table_map(u) =~= table_map(s).insert(s[i].0, v));
    } else {
        lemma_distinct_drop(s);
        lemma_table_update(s.drop_last(), i, v);
        assert(u.drop_last() =~= s.drop_last().update(i, (s[i].0, v)));
        assert(s[i].0 != s[s.len() - 1].0);
        assert(table_map(u) =~= table_map(s).insert(s[i].0, v));
    }
}

pub proof fn lemma_table_push<A, B>(s: Seq<(A, B)>, k: A, v: B)
    requires
        distinct(s),
        forall|i: int| 0 <= i < s.len() ==> (#[trigger] s[i]).0 != k,
    ensures
        distinct(s.push((k, v))),
        table_map(s.push((k, v))) == table_map(s).insert(k, v),
{
    assert(s.push((k, v)).drop_last() =~= s);
}

proof fn lemma_sum_update<A>(s: Seq<(A, Usage)>, i: int, u: Usage)
    requires
        0 <= i < s.len(),
    ensures
        table_sum(s.update(i, (s[i].0, plus(s[i].1, u)))) == plus(table_sum(s), u),
    decreases s.len(),
{
    let t = s.update(i, (s[i].0, plus(s[i].1, u)));
    let rest = table_sum(s.drop_last());
    let last = s.last().1;
    if i == s.len() - 1 {
        assert(t.drop_last() =~= s.drop_last());
        law_usage_adds_in_any_order(rest, last, u);
    } else {
        lemma_sum_update(s.drop_last(), i, u);
        assert(t.drop_last() =~= s.drop_last().update(i, (s[i].0, plus(s[i].1, u))));
        law_usage_adds_in_any_order(rest, u, last);
        law_usage_adds_in_any_order(rest, last, u);
        law_usage_adds_in_any_order(u, last, u);
    }
}

/// The counts that a map has for `k`: none where it has no entry.
pub open spec fn usage_at<A>(m: Map<A, Usage>, k: A) -> Usage {
    if m.dom().contains(k) {
        m[k]
    } else {
        no_usage()
    }
}

/// `m` with `u` added under `k`.
pub open spec fn added<A>(m: Map<A, Usage>, k: A, u: Usage) -> Map<A, Usage> {
    m.insert(k, plus(usage_at(m, k), u))
}

/// Whether `after` is `before` with `u` added to the entry at `i`.
pub open spec fn is_updated<A>(
    before: Seq<(A, Usage)>,
    after: Seq<(A, Usage)>,
    i: int,
    u: Usage,
) -> bool {
    0 <= i < before.len() && after == before.update(i, (before[i].0, plus(before[i].1, u)))
}

/// Whether `after` is `before` with `u` added under `k`: to the entry of `k`, or as a new one.
pub open spec fn is_added<A>(
    before: Seq<(A, Usage)>,
    after: Seq<(A, Usage)>,
    k: A,
    u: Usage,
) -> bool {
    ||| exists|i: int| #[trigger] is_updated(before, after, i, u) && before[i].0 == k
    ||| after == before.push((k, plus(no_usage(), u)))
}

/// Two maps together: what both have is added up.
pub open spec fn merged<A>(a: Map<A, Usage>, b: Map<A, Usage>) -> Map<A, Usage> {
    Map::new(
        |k: A| a.dom().contains(k) || b.dom().contains(k),
        |k: A| plus(usage_at(a, k), usage_at(b, k)),
    )
}

proof fn lemma_merged_step<A>(a: Map<A, Usage>, b: Map<A, Usage>, k: A, u: Usage)
    requires
        !b.dom().contains(k),
    ensures
        added(merged(a, b), k, u) == merged(a, b.insert(k, u)),
{
    law_usage_adds_in_any_order(usage_at(a, k), no_usage(), no_usage());
    law_usage_adds_in_any_order(u, no_usage(), no_usage());
    assert(added(merged(a, b), k, u) =~= merged(a, b.insert(k, u)));
}

pub proof fn lemma_merged_empty<A>(a: Map<A, Usage>)
    ensures
        merged(a, Map::empty()) == a,
{
    assert forall|k: A| a.dom().contains(k) implies merged(a, Map::<A, Usage>::empty())[k]
        == a[k] by {
        law_usage_adds_in_any_order(a[k], no_usage(), no_usage());
    }
    assert(merged(a, Map::<A, Usage>::empty()) =~= a);
}

/// Merging does not depend on the order: maps merge in any order and any grouping.
pub proof fn law_tables_merge_in_any_order<A>(
    a: Map<A, Usage>,
    b: Map<A, Usage>,
    c: Map<A, Usage>,
)
    ensures
        merged(a, b) == merged(b, a),
        merged(merged(a, b), c) == merged(a, merged(b, c)),
{
    assert forall|k: A| true implies plus(usage_at(a, k), usage_at(b, k)) == plus(
        usage_at(b, k),
        usage_at(a, k),
    ) && plus(#[trigger] usage_at(merged(a, b), k), usage_at(c, k)) == plus(
        usage_at(a, k),
        usage_at(merged(b, c), k),
    ) by {
        law_usage_adds_in_any_order(usage_at(a, k), usage_at(b, k), usage_at(c, k));
        law_usage_adds_in_any_order(usage_at(c, k), no_usage(), no_usage());
        law_usage_adds_in_any_order(no_usage(), no_usage(), usage_at(c, k));
    }
    assert forall|k: A| merged(a, b).dom().contains(k) implies merged(a, b)[k] == merged(b, a)[k] by {
        assert(plus(usage_at(merged(a, b), k), usage_at(c, k)) == plus(
            usage_at(a, k),
            usage_at(merged(b, c), k),
        ));
    }
    assert(merged(a, b) =~= merged(b, a));
    assert(merged(merged(a, b), c) =~= merged(a, merged(b, c)));
}

/// Token counts under keys. No key stands twice; the order is that in which keys came.
pub struct UsageTable<K: Key> {
    pub entries: Vec<(K, Usage)>,
}

/// The entries of a table, with each key by what it stands for.
pub open spec fn listed<K: Key>(entries: Seq<(K, Usage)>) -> Seq<(K::V, Usage)> {
    entries.map_values(|e: (K, Usage)| (e.0@, e.1))
}

impl<K: Key> View for UsageTable<K> {
    type V = Map<K::V, Usage>;

    open spec fn view(&self) -> Map<K::V, Usage> {
        table_map(listed(self.entries@))
    }
}

impl<K: Key> UsageTable<K> {
    /// Whether no key stands twice.
    pub open spec fn wf(&self) -> bool {
        distinct(listed(self.entries@))
    }

    /// Everything in the table added up.
    pub open spec fn sum(&self) -> Usage {
        table_sum(listed(self.entries@))
    }

    /// An empty table.
    pub fn new() -> (t: UsageTable<K>)
        ensures
            t.wf(),
            t@ == Map::<K::V, Usage>::empty(),
            t.sum() == no_usage(),
            t.entries@.len() == 0,
    {
        UsageTable { entries: Vec::new() }
    }

    fn find(&self, key: &K) -> (at: Option<usize>)
        requires
            self.wf(),
        ensures
            match at {
                Some(i) => i < self.entries@.len() && listed(self.entries@)[i as int].0 == key@
                    && self@.dom().contains(key@) && self@[key@] == self.entries@[i as int].1,
                None => !self@.dom().contains(key@) && forall|i: int|
                    0 <= i < self.entries@.len() ==> (#[trigger] listed(self.entries@)[i]).0
                        != key@,
            },
    {
        let ghost pairs = listed(self.entries@);
        let mut i: usize = 0;
        while i < self.entries.len()
            invariant
                i <= self.entries@.len(),
                pairs == listed(self.entries@),
                self.wf(),
                forall|j: int| 0 <= j < i ==> (#[trigger] pairs[j]).0 != key@,
            decreases self.entries@.len() - i,
        {
            if self.entries[i].0.same(key) {
                proof {
                    lemma_table_at(pairs, i as int);
                }
                return Some(i);
            }
            i += 1;
        }
        proof {
            lemma_table_without(pairs, key@);
        }
        None
    }

    /// The counts under `key`.
    pub fn get(&self, key: &K) -> (u: Option<Usage>)
        requires
            self.wf(),
        ensures
            u == (if self@.dom().contains(key@) {
                Some(self@[key@])
            } else {
                None
            }),
    {
        match self.find(key) {
            Some(i) => Some(self.entries[i].1),
            None => None,
        }
    }

    /// Adds `u` under `key`.
    pub fn add(&mut self, key: &K, u: &Usage)
        requires
            old(self).wf(),
        ensures
            final(self).wf(),
            final(self)@ == added(old(self)@, key@, *u),
            final(self).sum() == plus(old(self).sum(), *u),
            is_added(listed(old(self).entries@), listed(final(self).entries@), key@, *u),
    {
        let ghost before = listed(self.entries@);
        match self.find(key) {
            Some(i) => {
                let mut entry = self.entries[i].1;
                entry.merge(u);
                let same_key = self.entries[i].0.duplicate();
                self.entries.set(i, (same_key, entry));
                proof {
                    lemma_table_update(before, i as int, entry);
                    lemma_sum_update(before, i as int, *u);
                    assert(listed(self.entries@) =~= before.update(i as int, (key@, entry)));
                    assert(is_updated(before, listed(self.entries@), i as int, *u));
                }
            },
            None => {
                let mut entry = Usage::default();
                entry.merge(u);
                self.entries.push((key.duplicate(), entry));
                proof {
                    lemma_table_push(before, key@, entry);
                    law_usage_adds_in_any_order(*u, no_usage(), no_usage());
                    assert(listed(self.entries@) =~= before.push((key@, entry)));
                    assert(listed(self.entries@).drop_last() =~= before);
                }
            },
        }
    }

    /// Another table with the same entries in the same order.
    pub fn duplicate(&self) -> (t: UsageTable<K>)
        ensures
            listed(t.entries@) == listed(self.entries@),
            t@ == self@,
            t.sum() == self.sum(),
            t.wf() == self.wf(),
    {
        let mut entries: Vec<(K, Usage)> = Vec::new();
        let mut i: usize = 0;
        while i < self.entries.len()
            invariant
                i <= self.entries@.len(),
                listed(entries@) =~= listed(self.entries@).take(i as int),
            decreases self.entries@.len() - i,
        {
            let ghost before = listed(entries@);
            entries.push((self.entries[i].0.duplicate(), self.entries[i].1));
            proof {
                assert(listed(entries@) =~= before.push(listed(self.entries@)[i as int]));
            }
            i += 1;
        }
        proof {
            assert(listed(entries@) =~= listed(self.entries@));
        }
        UsageTable { entries }
    }
}

/// Adds every entry of `source` to `target`.
pub fn merge_usage_map<K: Key>(target: &mut UsageTable<K>, source: &UsageTable<K>)
    requires
        old(target).wf(),
        source.wf(),
    ensures
        final(target).wf(),
        final(target)@ == merged(old(target)@, source@),
        final(target).sum() == plus(old(target).sum(), source.sum()),
{
    let ghost start = target@;
    let ghost start_sum = target.sum();
    let ghost pairs = listed(source.entries@);
    let mut i: usize = 0;
    proof {
        assert(pairs.take(0) =~= Seq::empty());
        lemma_merged_empty(start);
        law_usage_adds_in_any_order(start_sum, no_usage(), no_usage());
    }
    while i < source.entries.len()
        invariant
            i <= source.entries@.len(),
            pairs == listed(source.entries@),
            distinct(pairs),
            target.wf(),
            target@ == merged(start, table_map(pairs.take(i as int))),
            target.sum() == plus(start_sum, table_sum(pairs.take(i as int))),
        decreases source.entries@.len() - i,
    {
        let ghost done = pairs.take(i as int);
        proof {
            assert(pairs.take(i + 1).drop_last() =~= done);
            assert forall|j: int| 0 <= j < done.len() implies (#[trigger] done[j]).0
                != pairs[i as int].0 by {
                assert(done[j] == pairs[j]);
            }
            lemma_table_without(done, pairs[i as int].0);
            lemma_merged_step(start, table_map(done), pairs[i as int].0, pairs[i as int].1);
            law_usage_adds_in_any_order(start_sum, table_sum(done), pairs[i as int].1);
        }
        target.add(&source.entries[i].0, &source.entries[i].1);
        i += 1;
    }
    proof {
        assert(pairs.take(pairs.len() as int) =~= pairs);
    }
}

/// Token counts by model under keys. No key stands twice.
pub struct ModelTables<K: Key> {
    pub entries: Vec<(K, UsageTable<String>)>,
}

/// The entries of nested tables, with each key and each table by what it stands for.
pub open spec fn listed_tables<K: Key>(entries: Seq<(K, UsageTable<String>)>) -> Seq<
    (K::V, Map<Seq<char>, Usage>),
> {
    entries.map_values(|e: (K, UsageTable<String>)| (e.0@, e.1@))
}

impl<K: Key> View for ModelTables<K> {
    type V = Map<K::V, Map<Seq<char>, Usage>>;

    open spec fn view(&self) -> Map<K::V, Map<Seq<char>, Usage>> {
        table_map(listed_tables(self.entries@))
    }
}

/// The table that a map of tables has for `k`: an empty one where it has no entry.
pub open spec fn models_at<A>(m: Map<A, Map<Seq<char>, Usage>>, k: A) -> Map<Seq<char>, Usage> {
    if m.dom().contains(k) {
        m[k]
    } else {
        Map::empty()
    }
}

/// `m` with `u` added for `model` under `k`.
pub open spec fn added_model<A>(
    m: Map<A, Map<Seq<char>, Usage>>,
    k: A,
    model: Seq<char>,
    u: Usage,
) -> Map<A, Map<Seq<char>, Usage>> {
    m.insert(k, added(models_at(m, k), model, u))
}

impl<K: Key> ModelTables<K> {
    /// Whether no key stands twice, here and in each table.
    pub open spec fn wf(&self) -> bool {
        &&& distinct(listed_tables(self.entries@))
        &&& forall|i: int| 0 <= i < self.entries@.len() ==> (#[trigger] self.entries@[i]).1.wf()
    }

    /// What the table under `k` adds up to: nothing where there is none.
    pub open spec fn sum_at(&self, k: K::V) -> Usage {
        if exists|i: int| 0 <= i < self.entries@.len() && (#[trigger] self.entries@[i]).0@ == k {
            let i = choose|i: int|
                0 <= i < self.entries@.len() && (#[trigger] self.entries@[i]).0@ == k;
            self.entries@[i].1.sum()
        } else {
            no_usage()
        }
    }

    proof fn lemma_sum_at(&self, i: int)
        requires
            self.wf(),
            0 <= i < self.entries@.len(),
        ensures
            self.sum_at(self.entries@[i].0@) == self.entries@[i].1.sum(),
    {
        let k = self.entries@[i].0@;
        let j = choose|j: int| 0 <= j < self.entries@.len() && (#[trigger] self.entries@[j]).0@ == k;
        let pairs = listed_tables(self.entries@);
        assert(pairs[i].0 == k && pairs[j].0 == k);
    }

    /// No tables.
    pub fn new() -> (t: ModelTables<K>)
        ensures
            t.wf(),
            t@ == Map::<K::V, Map<Seq<char>, Usage>>::empty(),
            t.entries@.len() == 0,
            forall|k: K::V| t.sum_at(k) == no_usage(),
    {
        ModelTables { entries: Vec::new() }
    }

    fn find(&self, key: &K) -> (at: Option<usize>)
        requires
            self.wf(),
        ensures
            match at {
                Some(i) => i < self.entries@.len() && self.entries@[i as int].0@ == key@
                    && self@.dom().contains(key@) && self@[key@] == self.entries@[i as int].1@,
                None => !self@.dom().contains(key@) && forall|i: int|
                    0 <= i < self.entries@.len() ==> (#[trigger] self.entries@[i]).0@ != key@,
            },
    {
        let ghost pairs = listed_tables(self.entries@);
        let mut i: usize = 0;
        while i < self.entries.len()
            invariant
                i <= self.entries@.len(),
                pairs == listed_tables(self.entries@),
                self.wf(),
                forall|j: int| 0 <= j < i ==> (#[trigger] self.entries@[j]).0@ != key@,
            decreases self.entries@.len() - i,
        {
            if self.entries[i].0.same(key) {
                proof {
                    lemma_table_at(pairs, i as int);
                }
                return Some(i);
            }
            i += 1;
        }
        proof {
            assert forall|j: int| 0 <= j < pairs.len() implies (#[trigger] pairs[j]).0 != key@ by {
                assert(pairs[j].0 == self.entries@[j].0@);
            }
            lemma_table_without(pairs, key@);
        }
        None
    }

    /// The table under `key`.
    pub fn get(&self, key: &K) -> (table: Option<&UsageTable<String>>)
        requires
            self.wf(),
        ensures
            match table {
                Some(t) => self@.dom().contains(key@) && self@[key@] == t@ && t.wf() && t.sum()
                    == self.sum_at(key@),
                None => !self@.dom().contains(key@) && self.sum_at(key@) == no_usage(),
            },
    {
        match self.find(key) {
            Some(i) => {
                proof {
                    self.lemma_sum_at(i as int);
                }
                Some(&self.entries[i].1)
            },
            None => None,
        }
    }

    /// Adds `u` for `model` under `key`.
    pub fn add(&mut self, key: &K, model: &String, u: &Usage)
        requires
            old(self).wf(),
        ensures
            final(self).wf(),
            final(self)@ == added_model(old(self)@, key@, model@, *u),
            final(self).sum_at(key@) == plus(old(self).sum_at(key@), *u),
            forall|k: K::V| k != key@ ==> final(self).sum_at(k) == old(self).sum_at(k),
    {
        let ghost before = *self;
        let ghost pairs = listed_tables(self.entries@);
        match self.find(key) {
            Some(i) => {
                let mut table = self.entries[i].1.duplicate();
                table.add(model, u);
                let ghost table_view = table@;
                let same_key = self.entries[i].0.duplicate();
                self.entries.set(i, (same_key, table));
                proof {
                    lemma_table_update(pairs, i as int, table_view);
                    assert(listed_tables(self.entries@) =~= pairs.update(
                        i as int,
                        (key@, table_view),
                    ));
                    before.lemma_sum_at(i as int);
                    self.lemma_sum_at(i as int);
                    assert forall|k: K::V| k != key@ implies self.sum_at(k) == before.sum_at(k) by {
                        if exists|j: int|
                            0 <= j < before.entries@.len() && (#[trigger] before.entries@[j]).0@
                                == k {
                            let j = choose|j: int|
                                0 <= j < before.entries@.len() && (#[trigger] before.entries@[j]).0@
                                    == k;
                            before.lemma_sum_at(j);
                            self.lemma_sum_at(j);
                        } else {
                            assert forall|j: int|
                                0 <= j < self.entries@.len() implies (#[trigger] self.entries@[j]).0@
                                != k by {
                                assert(before.entries@[j].0@ != k);
                            }
                        }
                    }
                }
            },
            None => {
                let mut table: UsageTable<String> = UsageTable::new();
                table.add(model, u);
                let ghost table_view = table@;
                self.entries.push((key.duplicate(), table));
                proof {
                    let n = before.entries@.len() as int;
                    assert forall|j: int| 0 <= j < pairs.len() implies (#[trigger] pairs[j]).0
                        != key@ by {
                        assert(pairs[j].0 == before.entries@[j].0@);
                    }
                    lemma_table_push(pairs, key@, table_view);
                    assert(listed_tables(self.entries@) =~= pairs.push((key@, table_view)));
                    self.lemma_sum_at(n);
                    assert forall|k: K::V| k != key@ implies self.sum_at(k) == before.sum_at(k) by {
                        if exists|j: int|
                            0 <= j < before.entries@.len() && (#[trigger] before.entries@[j]).0@
                                == k {
                            let j = choose|j: int|
                                0 <= j < before.entries@.len() && (#[trigger] before.entries@[j]).0@
                                    == k;
                            before.lemma_sum_at(j);
                            assert(self.entries@[j] == before.entries@[j]);
                            self.lemma_sum_at(j);
                        } else {
                            assert forall|j: int|
                                0 <= j < self.entries@.len() implies (#[trigger] self.entries@[j]).0@
                                != k by {
                                if j < n {
                                    assert(before.entries@[j].0@ != k);
                                }
                            }
                        }
                    }
                }
            },
        }
    }
}

/// The tokens of the entries that have no price.
pub open spec fn unpriced_sum<A>(s: Seq<(A, Usage)>, priced: Seq<bool>) -> i64
    decreases s.len(),
{
    if s.len() == 0 {
        0
    } else {
        let rest = unpriced_sum(s.drop_last(), priced);
        if priced[s.len() - 1] {
            rest
        } else {
            rest.wrapping_add(s.last().1.total_tokens)
        }
    }
}

/// The tokens of the models that have no price. `priced` says for each entry of the table
/// whether its model has one.
pub fn unpriced_tokens(table: &UsageTable<String>, priced: &Vec<bool>) -> (n: i64)
    requires
        priced@.len() == table.entries@.len(),
    ensures
        n == unpriced_sum(listed(table.entries@), priced@),
{
    let ghost pairs = listed(table.entries@);
    let mut n: i64 = 0;
    let mut i: usize = 0;
    while i < table.entries.len()
        invariant
            i <= table.entries@.len(),
            priced@.len() == table.entries@.len(),
            pairs == listed(table.entries@),
            n == unpriced_sum(pairs.take(i as int), priced@),
        decreases table.entries@.len() - i,
    {
        proof {
            assert(pairs.take(i + 1).drop_last() =~= pairs.take(i as int));
        }
        if !priced[i] {
            n = n.wrapping_add(table.entries[i].1.total_tokens);
        }
        i += 1;
    }
    proof {
        assert(pairs.take(pairs.len() as int) =~= pairs);
    }
    n
}

/// Counts that are added under a key raise that key by just as much and leave every other key as
/// it was.
pub proof fn law_counts_are_added_under_their_key<A>(m: Map<A, Usage>, key: A, other: A, u: Usage)
    requires
        other != key,
    ensures
        ({
            let after = added(m, key, u);
            &&& after.dom() == m.dom().insert(key)
            &&& m.dom().contains(key) ==> after[key] == plus(m[key], u)
            &&& !m.dom().contains(key) ==> after[key] == u
            &&& m.dom().contains(other) ==> after[other] == m[other]
        }),
{
    law_usage_adds_in_any_order(u, no_usage(), no_usage());
}

/// Counts that are added for a model under a key raise that model there by just as much, and leave
/// every other model and every other key as they were.
pub proof fn law_counts_are_added_for_their_model<A>(
    m: Map<A, Map<Seq<char>, Usage>>,
    key: A,
    model: Seq<char>,
    other_key: A,
    other_model: Seq<char>,
    u: Usage,
)
    requires
        other_key != key,
        other_model != model,
    ensures
        ({
            let after = added_model(m, key, model, u);
            let known = m.dom().contains(key);
            &&& after.dom() == m.dom().insert(key)
            &&& after[key].dom().contains(model)
            &&& known && m[key].dom().contains(model) ==> after[key][model] == plus(m[key][model], u)
            &&& !(known && m[key].dom().contains(model)) ==> after[key][model] == u
            &&& after[key].dom().contains(other_model) <==> known && m[key].dom().contains(
                other_model,
            )
            &&& known && m[key].dom().contains(other_model) ==> after[key][other_model]
                == m[key][other_model]
            &&& m.dom().contains(other_key) ==> after[other_key] == m[other_key]
        }),
{
    law_usage_adds_in_any_order(u, no_usage(), no_usage());
}

/// Two tables together have the keys of both: what one of them has alone stays as it is, and what
/// both have is added up.
pub proof fn law_tables_are_added_up_key_by_key<A>(a: Map<A, Usage>, b: Map<A, Usage>, k: A)
    ensures
        merged(a, b).dom().contains(k) <==> a.dom().contains(k) || b.dom().contains(k),
        a.dom().contains(k) && b.dom().contains(k) ==> merged(a, b)[k] == plus(a[k], b[k]),
        a.dom().contains(k) && !b.dom().contains(k) ==> merged(a, b)[k] == a[k],
        !a.dom().contains(k) && b.dom().contains(k) ==> merged(a, b)[k] == b[k],
{
    law_usage_adds_in_any_order(usage_at(a, k), no_usage(), no_usage());
    law_usage_adds_in_any_order(usage_at(b, k), no_usage(), no_usage());
}

/// A model with a price adds nothing to the tokens without one; a model without a price adds all of
/// its tokens.
pub proof fn law_only_models_without_a_price_are_unpriced<A>(
    s: Seq<(A, Usage)>,
    priced: Seq<bool>,
    entry: (A, Usage),
)
    requires
        priced.len() == s.len(),
    ensures
        unpriced_sum(Seq::<(A, Usage)>::empty(), Seq::empty()) == 0,
        unpriced_sum(s.push(entry), priced.push(true)) == unpriced_sum(s, priced),
        i64::MIN <= unpriced_sum(s, priced) + entry.1.total_tokens <= i64::MAX ==> unpriced_sum(
            s.push(entry),
            priced.push(false),
        ) == unpriced_sum(s, priced) + entry.1.total_tokens,
{
    assert(s.push(entry).drop_last() =~= s);
    lemma_unpriced_flags(s, priced, priced.push(true));
    lemma_unpriced_flags(s, priced, priced.push(false));
}

proof fn lemma_unpriced_flags<A>(s: Seq<(A, Usage)>, priced: Seq<bool>, longer: Seq<bool>)
    requires
        s.len() <= priced.len() <= longer.len(),
        forall|i: int| 0 <= i < s.len() ==> priced[i] == longer[i],
    ensures
        unpriced_sum(s, priced) == unpriced_sum(s, longer),
    decreases s.len(),
{
    if s.len() > 0 {
        lemma_unpriced_flags(s.drop_last(), priced, longer);
    }
}

} // verus!
