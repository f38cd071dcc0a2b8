//! Ranking by frecency: a score that blends how often a branch was checked
//! out with how recently. The score itself is floating-point arithmetic and
//! is worked out by the caller; it comes in beside the usage that it was
//! made of, in fixed point, counted in millionths of a point. What stands
//! here is what is done with the scores: ranking and looking up.

use vstd::prelude::*;
use crate::constants::{DAY_SECONDS, HOUR_SECONDS, MINUTE_SECONDS, MONTH_SECONDS, WEEK_SECONDS};
use crate::order::{
    by_score_descending, descending_order, pair_views, sort_descending, sort_pairs_descending,
};
use crate::storage::BranchRecord;
use crate::text::{decimal, decimal_string, texts};

verus! {

/// A branch with its frecency score, in millionths of a point, and the
/// usage that the score came from.
#[derive(Debug, Clone)]
pub struct ScoredBranch {
    pub name: String,
    pub score: i64,
    pub switch_count: i64,
    pub last_used: i64,
}

/// The scores of a list of scored branches, one for each.
pub open spec fn usage_scores(scored: Seq<ScoredBranch>) -> Seq<i64> {
    scored.map_values(|entry: ScoredBranch| entry.score)
}

/// Whether two scored branches carry the same name, score and usage.
pub open spec fn same_usage(one: ScoredBranch, other: ScoredBranch) -> bool {
    &&& one.name@ == other.name@
    &&& one.score == other.score
    &&& one.switch_count == other.switch_count
    &&& one.last_used == other.last_used
}

/// The names and scores of the scored branches, best score first, equal
/// scores in the order in which they came.
pub open spec fn ranked_scores(scored: Seq<ScoredBranch>) -> Seq<(Seq<char>, i64)> {
    by_score_descending(scored.map_values(|entry: ScoredBranch| (entry.name@, entry.score)))
}

/// The score of the first of `entries` from position `start` on that
/// carries `name`; zero where none does.
pub open spec fn first_score_from(entries: Seq<(Seq<char>, i64)>, name: Seq<char>, start: int) -> i64
    decreases entries.len() - start,
{
    if start < 0 || start >= entries.len() {
        0
    } else if entries[start].0 == name {
        entries[start].1
    } else {
        first_score_from(entries, name, start + 1)
    }
}

/// The frecency score of a branch name: that of the best-scored entry that
/// carries the name, zero for a name without one.
pub open spec fn name_score(scored: Seq<ScoredBranch>, name: Seq<char>) -> i64 {
    first_score_from(ranked_scores(scored), name, 0)
}

/// Each name with its frecency score, in the order of `names`.
pub open spec fn names_with_scores(names: Seq<Seq<char>>, scored: Seq<ScoredBranch>) -> Seq<
    (Seq<char>, i64),
> {
    names.map_values(|name: Seq<char>| (name, name_score(scored, name)))
}

/// The names with their frecency scores, best score first, names of equal
/// score in the order of `names`.
pub open spec fn frecency_ranking(names: Seq<Seq<char>>, scored: Seq<ScoredBranch>) -> Seq<
    (Seq<char>, i64),
> {
    by_score_descending(names_with_scores(names, scored))
}

/// How long ago `age` seconds are, in words: the largest unit that fits, in
/// whole numbers rounded down, and "just now" below a minute.
pub open spec fn relative_time(age: int) -> Seq<char> {
    if age < MINUTE_SECONDS {
        "just now"@
    } else if age < HOUR_SECONDS {
        decimal(age / (MINUTE_SECONDS as int)) + "m ago"@
    } else if age < DAY_SECONDS {
        decimal(age / (HOUR_SECONDS as int)) + "h ago"@
    } else if age < WEEK_SECONDS {
        decimal(age / (DAY_SECONDS as int)) + "d ago"@
    } else if age < MONTH_SECONDS {
        decimal(age / (WEEK_SECONDS as int)) + "w ago"@
    } else {
        decimal(age / (MONTH_SECONDS as int)) + "mo ago"@
    }
}

/// Puts a score beside the usage record that it was made of.
pub fn scored_branch(record: &BranchRecord, score: i64) -> (scored: ScoredBranch)
    ensures
        scored.name@ == record.branch_name@,
        scored.score == score,
        scored.switch_count == record.switch_count,
        scored.last_used == record.last_used,
{
    ScoredBranch {
        name: record.branch_name.clone(),
        score,
        switch_count: record.switch_count,
        last_used: record.last_used,
    }
}

/// Ranks scored branches: best score first, branches of equal score in the
/// order in which they came.
pub fn rank_branches(scored: &[ScoredBranch]) -> (ranked: Vec<ScoredBranch>)
    ensures
        ranked@.len() == scored@.len(),
        forall|p: int|
            0 <= p < ranked@.len() ==> same_usage(
                #[trigger] ranked@[p],
                scored@[descending_order(usage_scores(scored@))[p]],
            ),
{
    let mut keys: Vec<i64> = Vec::new();
    let mut i: usize = 0;
    while i < scored.len()
        invariant
            i <= scored@.len(),
            keys@.len() == i,
            forall|q: int| 0 <= q < i ==> #[trigger] keys@[q] == scored@[q].score,
        decreases scored@.len() - i,
    {
        keys.push(scored[i].score);
        i += 1;
    }
    proof {
        assert(keys@ =~= usage_scores(scored@));
    }
    let order = sort_descending(&keys);
    let mut ranked: Vec<ScoredBranch> = Vec::new();
    let mut p: usize = 0;
    while p < order.len()
        invariant
            p <= order@.len(),
            order@.len() == scored@.len(),
            keys@ == usage_scores(scored@),
            forall|q: int| 0 <= q < order@.len() ==> #[trigger] order@[q] < scored@.len(),
            forall|q: int|
                0 <= q < order@.len() ==> #[trigger] order@[q] as int == descending_order(
                    keys@,
                )[q],
            ranked@.len() == p,
            forall|q: int|
                0 <= q < p ==> same_usage(#[trigger] ranked@[q], scored@[order@[q] as int]),
        decreases order@.len() - p,
    {
        let entry = &scored[order[p]];
        ranked.push(
            ScoredBranch {
                name: entry.name.clone(),
                score: entry.score,
                switch_count: entry.switch_count,
                last_used: entry.last_used,
            },
        );
        p += 1;
    }
    ranked
}

/// The names with their frecency scores, best score first. A name without
/// a scored branch scores zero, so never-used names come behind every name
/// with a score above zero, in the order in which they were given.
pub fn sort_branches_by_frecency(branches: &[String], scored: &[ScoredBranch]) -> (sorted: Vec<
    (String, i64),
>)
    ensures
        pair_views(sorted@) == frecency_ranking(texts(branches@), scored@),
{
    let ranked = rank_branches(scored);
    let ghost entries = ranked_scores(scored@);
    proof {
        let items = scored@.map_values(|entry: ScoredBranch| (entry.name@, entry.score));
        assert(crate::order::scores_of(items) =~= usage_scores(scored@));
        assert forall|q: int| 0 <= q < ranked@.len() implies entries[q] == (
            (#[trigger] ranked@[q]).name@,
            ranked@[q].score,
        ) by {
            let source = descending_order(usage_scores(scored@))[q];
            crate::order::lemma_descending_order(usage_scores(scored@));
            assert(same_usage(ranked@[q], scored@[source]));
        }
    }
    let mut pairs: Vec<(String, i64)> = Vec::new();
    let mut i: usize = 0;
    while i < branches.len()
        invariant
            i <= branches@.len(),
            pairs@.len() == i,
            entries.len() == ranked@.len(),
            entries == ranked_scores(scored@),
            forall|q: int|
                0 <= q < ranked@.len() ==> entries[q] == (
                    (#[trigger] ranked@[q]).name@,
                    ranked@[q].score,
                ),
            forall|q: int|
                0 <= q < i ==> (#[trigger] pairs@[q]).0@ == branches@[q]@ && pairs@[q].1
                    == name_score(scored@, branches@[q]@),
        decreases branches@.len() - i,
    {
        let branch = &branches[i];
        let mut score: i64 = 0;
        let mut at: usize = 0;
        while at < ranked.len()
            invariant
                at <= ranked@.len(),
                entries.len() == ranked@.len(),
                forall|q: int|
                    0 <= q < ranked@.len() ==> entries[q] == (
                        (#[trigger] ranked@[q]).name@,
                        ranked@[q].score,
                    ),
                first_score_from(entries, branch@, 0) == if at < ranked@.len() {
                    first_score_from(entries, branch@, at as int)
                } else {
                    score
                },
                at < ranked@.len() ==> score == 0,
            decreases ranked@.len() - at,
        {
            if ranked[at].name == *branch {
                score = ranked[at].score;
                proof {
                    assert(entries[at as int].0 == branch@);
                    assert(first_score_from(entries, branch@, at as int) == score);
                }
                at = ranked.len();
            } else {
                proof {
                    assert(entries[at as int].0 != branch@);
                    assert(first_score_from(entries, branch@, at as int) == first_score_from(
                        entries,
                        branch@,
                        at + 1,
                    ));
                    assert(first_score_from(entries, branch@, ranked@.len() as int) == 0);
                }
                at += 1;
            }
        }
        pairs.push((branch.clone(), score));
        i += 1;
    }
    proof {
        assert(pair_views(pairs@) =~= names_with_scores(texts(branches@), scored@));
    }
    sort_pairs_descending(&pairs)
}

/// Says in words how long before `now` the time `timestamp` lies.
pub fn format_relative_time(timestamp: i64, now: i64) -> (words: String)
    ensures
        words@ == relative_time(now - timestamp),
{
    let age: i128 = now as i128 - timestamp as i128;
    if age < MINUTE_SECONDS as i128 {
        "just now".to_owned()
    } else if age < HOUR_SECONDS as i128 {
        let mut words = decimal_string((age / (MINUTE_SECONDS as i128)) as i64);
        words.append("m ago");
        words
    } else if age < DAY_SECONDS as i128 {
        let mut words = decimal_string((age / (HOUR_SECONDS as i128)) as i64);
        words.append("h ago");
        words
    } else if age < WEEK_SECONDS as i128 {
        let mut words = decimal_string((age / (DAY_SECONDS as i128)) as i64);
        words.append("d ago");
        words
    } else if age < MONTH_SECONDS as i128 {
        let mut words = decimal_string((age / (WEEK_SECONDS as i128)) as i64);
        words.append("w ago");
        words
    } else {
        let mut words = decimal_string((age / (MONTH_SECONDS as i128)) as i64);
        words.append("mo ago");
        words
    }
}

} // verus!
