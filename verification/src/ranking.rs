//! The models that use the most.
use crate::usage::{listed, Usage, UsageTable};
use vstd::prelude::*;

verus! {

/// The rank of an entry: the more tokens, the lower. In 64 bits the smallest count keeps its
/// sign.
pub open spec fn rank(u: Usage) -> i64 {
    if u.total_tokens == i64::MIN {
        i64::MIN
    } else {
        (-u.total_tokens) as i64
    }
}

/// `e` put in its place in a ranked list, behind those of the same rank.
pub open spec fn put_in_place<A>(s: Seq<(A, Usage)>, e: (A, Usage)) -> Seq<(A, Usage)>
    decreases s.len(),
{
    if s.len() == 0 || rank(s.last().1) <= rank(e.1) {
        s.push(e)
    } else {
        put_in_place(s.drop_last(), e).push(s.last())
    }
}

/// A list by rank. Entries of the same rank stay in their order.
pub open spec fn ranked<A>(s: Seq<(A, Usage)>) -> Seq<(A, Usage)>
    decreases s.len(),
{
    if s.len() == 0 {
        s
    } else {
        put_in_place(ranked(s.drop_last()), s.last())
    }
}

/// The first entries of a ranked list, at most eight.
pub open spec fn leading<A>(s: Seq<(A, Usage)>) -> Seq<(A, Usage)> {
    if s.len() <= 8 {
        s
    } else {
        s.take(8)
    }
}

/// Whether a list goes from the most tokens to the fewest.
pub open spec fn by_rank<A>(s: Seq<(A, Usage)>) -> bool {
    forall|i: int, j: int|
        0 <= i <= j < s.len() ==> rank((#[trigger] s[i]).1) <= rank((#[trigger] s[j]).1)
}

proof fn lemma_put_in_place<A>(s: Seq<(A, Usage)>, e: (A, Usage))
    requires
        by_rank(s),
    ensures
        by_rank(put_in_place(s, e)),
        put_in_place(s, e).to_multiset() == s.to_multiset().insert(e),
        put_in_place(s, e).len() == s.len() + 1,
        forall|i: int|
            0 <= i < put_in_place(s, e).len() ==> rank((#[trigger] put_in_place(s, e)[i]).1)
                <= rank(e.1) || (s.len() > 0 && rank(put_in_place(s, e)[i].1) <= rank(s.last().1)),
    decreases s.len(),
{
    broadcast use vstd::seq_lib::group_to_multiset_ensures;

    if s.len() == 0 || rank(s.last().1) <= rank(e.1) {
        let t = s.push(e);
        assert forall|i: int| 0 <= i < t.len() implies rank((#[trigger] t[i]).1) <= rank(e.1) by {
            if i < s.len() {
                assert(rank(s[i].1) <= rank(s[s.len() - 1].1));
            }
        }
        assert forall|i: int, j: int| 0 <= i <= j < t.len() implies rank((#[trigger] t[i]).1)
            <= rank((#[trigger] t[j]).1) by {
            if j < s.len() {
                assert(rank(s[i].1) <= rank(s[j].1));
            }
        }
    } else {
        let front = s.drop_last();
        assert forall|i: int, j: int|
            0 <= i <= j < front.len() implies rank((#[trigger] front[i]).1) <= rank(
            (#[trigger] front[j]).1,
        ) by {
            assert(front[i] == s[i] && front[j] == s[j]);
        }
        lemma_put_in_place(front, e);
        let mid = put_in_place(front, e);
        let t = mid.push(s.last());
        if front.len() > 0 {
            assert(front.last() == s[s.len() - 2]);
            assert(rank(s[s.len() - 2].1) <= rank(s[s.len() - 1].1));
        }
        assert forall|i: int| 0 <= i < t.len() implies rank((#[trigger] t[i]).1) <= rank(
            s.last().1,
        ) by {
            if i < mid.len() {
                assert(t[i] == mid[i]);
            }
        }
        assert forall|i: int, j: int| 0 <= i <= j < t.len() implies rank((#[trigger] t[i]).1)
            <= rank((#[trigger] t[j]).1) by {
            if j < mid.len() {
                assert(t[i] == mid[i] && t[j] == mid[j]);
            }
        }
        assert(s =~= front.push(s.last()));
        assert(t.to_multiset() =~= s.to_multiset().insert(e));
    }
}

/// A ranked list holds what the list holds, from the most tokens to the fewest.
pub proof fn law_ranking_keeps_the_entries<A>(s: Seq<(A, Usage)>)
    ensures
        by_rank(ranked(s)),
        ranked(s).to_multiset() == s.to_multiset(),
        ranked(s).len() == s.len(),
    decreases s.len(),
{
    broadcast use vstd::seq_lib::group_to_multiset_ensures;

    if s.len() > 0 {
        law_ranking_keeps_the_entries(s.drop_last());
        lemma_put_in_place(ranked(s.drop_last()), s.last());
        assert(s =~= s.drop_last().push(s.last()));
    }
}

proof fn lemma_place<A>(s: Seq<(A, Usage)>, e: (A, Usage), p: int)
    requires
        0 <= p <= s.len(),
        p == 0 || rank(s[p - 1].1) <= rank(e.1),
        forall|i: int| p <= i < s.len() ==> rank((#[trigger] s[i]).1) > rank(e.1),
    ensures
        put_in_place(s, e) == s.insert(p, e),
    decreases s.len(),
{
    if p == s.len() {
        assert(s.insert(p, e) =~= s.push(e));
    } else {
        let front = s.drop_last();
        assert(rank(s[s.len() - 1].1) > rank(e.1));
        assert forall|i: int| p <= i < front.len() implies rank((#[trigger] front[i]).1) > rank(
            e.1,
        ) by {
            assert(front[i] == s[i]);
        }
        lemma_place(front, e, p);
        assert(s.insert(p, e) =~= front.insert(p, e).push(s.last()));
    }
}

fn rank_of(u: &Usage) -> (r: i64)
    ensures
        r == rank(*u),
{
    if u.total_tokens == i64::MIN {
        i64::MIN
    } else {
        -u.total_tokens
    }
}

/// The models with the most tokens, at most eight.
pub fn top_models(table: &UsageTable<String>) -> (top: Vec<(String, Usage)>)
    ensures
        listed(top@) == leading(ranked(listed(table.entries@))),
{
    let ghost pairs = listed(table.entries@);
    let mut all: Vec<(String, Usage)> = Vec::new();
    let mut i: usize = 0;
    proof {
        assert(listed(all@) =~= ranked(pairs.take(0)));
    }
    while i < table.entries.len()
        invariant
            i <= table.entries@.len(),
            pairs == listed(table.entries@),
            listed(all@) == ranked(pairs.take(i as int)),
        decreases table.entries@.len() - i,
    {
        let ghost before = listed(all@);
        let entry = (table.entries[i].0.clone(), table.entries[i].1);
        let key = rank_of(&entry.1);
        let mut p: usize = all.len();
        while p > 0 && rank_of(&all[p - 1].1) > key
            invariant
                p <= all@.len(),
                before == listed(all@),
                key == rank(entry.1),
                forall|j: int| p <= j < all@.len() ==> rank((#[trigger] before[j]).1) > key,
            decreases p,
        {
            p -= 1;
            proof {
                assert(before[p as int].1 == all@[p as int].1);
            }
        }
        let ghost e = pairs[i as int];
        proof {
            if p > 0 {
                assert(before[p - 1].1 == all@[p - 1].1);
            }
            lemma_place(before, e, p as int);
            assert(pairs.take(i + 1).drop_last() =~= pairs.take(i as int));
            assert(pairs.take(i + 1).last() == e);
        }
        all.insert(p, entry);
        proof {
            assert(listed(all@) =~= before.insert(p as int, e));
        }
        i += 1;
    }
    proof {
        assert(pairs.take(pairs.len() as int) =~= pairs);
    }
    let ghost sorted = listed(all@);
    if all.len() > 8 {
        all.truncate(8);
        proof {
            assert(listed(all@) =~= sorted.take(8));
        }
    }
    all
}

/// The leading models are the first eight of all, or all where there are fewer, from the most tokens to
/// the fewest: each is one of the models, and no model that is left out has more tokens than one that
/// is not.
pub proof fn law_the_leading_models_have_the_most_tokens<A>(
    s: Seq<(A, Usage)>,
    i: int,
    j: int,
)
    requires
        forall|k: int| 0 <= k < s.len() ==> (#[trigger] s[k]).1.total_tokens > i64::MIN,
    ensures
        leading(ranked(s)).len() == (if s.len() <= 8 {
            s.len()
        } else {
            8
        }),
        ranked(s).to_multiset() == s.to_multiset(),
        0 <= i < leading(ranked(s)).len() ==> leading(ranked(s))[i] == ranked(s)[i],
        0 <= i <= j < s.len() ==> ranked(s)[i].1.total_tokens >= ranked(s)[j].1.total_tokens,
{
    broadcast use vstd::seq_lib::group_to_multiset_ensures;

    law_ranking_keeps_the_entries(s);
    let r = ranked(s);
    if 0 <= i <= j < s.len() {
        assert(r.to_multiset().count(r[i]) > 0 && r.to_multiset().count(r[j]) > 0);
        assert(s.contains(r[i]) && s.contains(r[j]));
        let a = choose|a: int| 0 <= a < s.len() && s[a] == r[i];
        let b = choose|b: int| 0 <= b < s.len() && s[b] == r[j];
        assert(s[a].1.total_tokens > i64::MIN && s[b].1.total_tokens > i64::MIN);
        assert(rank(r[i].1) <= rank(r[j].1));
    }
}

} // verus!
