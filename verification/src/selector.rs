//! Score fusion and selection: how match quality and frecency make one
//! ranking, and when the best candidate is taken without asking.

use vstd::prelude::*;
use crate::constants::{AUTO_SELECT_THRESHOLD, FRECENCY_MULTIPLIER, SCORE_SCALE};
use crate::error::GgoError;
use crate::frecency::{names_with_scores, sort_branches_by_frecency, ScoredBranch};
use crate::matcher::{
    filter_branches, fuzzy_filter_branches, fuzzy_ranking, match_views, matches_spec, ScoredMatch,
};
use crate::order::{by_score_descending, pair_views, sort_pairs_descending};
use crate::text::texts;

verus! {

/// `x` limited to what a score can hold.
pub open spec fn clamped(x: int) -> int {
    if x > i64::MAX {
        i64::MAX as int
    } else if x < i64::MIN {
        i64::MIN as int
    } else {
        x
    }
}

/// The combined score, in millionths, of a fuzzy score in whole points and
/// a frecency score in millionths: the fuzzy score plus the frecency score
/// times its multiplier, limited to what a score can hold.
pub open spec fn combined(fuzzy_score: int, frecency_score: int) -> int {
    clamped(fuzzy_score * SCORE_SCALE + frecency_score * FRECENCY_MULTIPLIER)
}

/// The score of the last of the scored branches that carries `name`; zero
/// where none does.
pub open spec fn last_score(scored: Seq<ScoredBranch>, name: Seq<char>) -> int
    decreases scored.len(),
{
    if scored.len() == 0 {
        0
    } else if scored.last().name@ == name {
        scored.last().score as int
    } else {
        last_score(scored.drop_last(), name)
    }
}

/// Each fuzzy match with its combined score, in the order of `matches`.
pub open spec fn fused(matches: Seq<(Seq<char>, i64)>, scored: Seq<ScoredBranch>) -> Seq<
    (Seq<char>, i64),
> {
    matches.map_values(
        |m: (Seq<char>, i64)| (m.0, combined(m.1 as int, last_score(scored, m.0)) as i64),
    )
}

/// Whether the ratio of `top` to `second` is at least the threshold, given
/// in hundredths. A second score of zero always qualifies.
pub open spec fn ratio_reaches(top: int, second: int, threshold: int) -> bool {
    if second == 0 {
        true
    } else if second > 0 {
        100 * top >= threshold * second
    } else {
        100 * top <= threshold * second
    }
}

/// A second score of zero always qualifies, and against a second score
/// above zero the default threshold of two asks for at least twice as much.
pub proof fn lemma_ratio_at_default_threshold(top: int, second: int)
    ensures
        ratio_reaches(top, 0, AUTO_SELECT_THRESHOLD as int),
        second > 0 ==> (ratio_reaches(top, second, AUTO_SELECT_THRESHOLD as int) <==> top >= 2
            * second),
{
}

/// In a ranking, where no score is below zero and none rises from one place
/// to the next, the first candidate is taken without asking exactly if the
/// second score is zero or the first is at least the threshold times the
/// second.
pub proof fn lemma_decision_in_ranking(ranked: Seq<(Seq<char>, i64)>, threshold: int)
    requires
        ranked.len() >= 2,
        0 <= ranked[1].1 <= ranked[0].1,
    ensures
        decision(ranked, false, threshold) == if ranked[1].1 == 0 || 100 * ranked[0].1
            >= threshold * ranked[1].1 {
            Decision::TakeFirst
        } else {
            Decision::Ask
        },
        decision(ranked, true, threshold) == Decision::Ask,
{
}

/// What selection decides for a ranked list of candidates.
pub enum Decision {
    /// No candidate is left.
    NoMatch,
    /// The first candidate is taken.
    TakeFirst,
    /// The choice is left to the user.
    Ask,
}

/// The decision for `ranked`, best candidate first: nothing to take from an
/// empty list; a single candidate is taken; with more, the user is asked if
/// that was demanded or if the best score is not far enough ahead of the
/// second.
pub open spec fn decision(ranked: Seq<(Seq<char>, i64)>, force_interactive: bool, threshold: int)
    -> Decision {
    if ranked.len() == 0 {
        Decision::NoMatch
    } else if ranked.len() == 1 {
        Decision::TakeFirst
    } else if force_interactive {
        Decision::Ask
    } else if ratio_reaches(ranked[0].1 as int, ranked[1].1 as int, threshold) {
        Decision::TakeFirst
    } else {
        Decision::Ask
    }
}

/// The outcome of a selection among candidates.
#[derive(Debug, Clone)]
pub enum Selection {
    /// The branch to check out.
    Chosen(String),
    /// The ranked candidates among which the user chooses.
    NeedsChoice(Vec<(String, i64)>),
}

/// Whether `outcome` is what the decision asks for on `ranked` and `pattern`.
pub open spec fn follows_decision(
    outcome: Result<Selection, GgoError>,
    ranked: Seq<(Seq<char>, i64)>,
    pattern: Seq<char>,
    choice: Decision,
) -> bool {
    match choice {
        Decision::NoMatch => outcome matches Err(GgoError::NoMatchingBranches(p)) && p@ == pattern,
        Decision::TakeFirst => outcome matches Ok(Selection::Chosen(name)) && name@ == ranked[0].0,
        Decision::Ask => outcome matches Ok(Selection::NeedsChoice(list)) && pair_views(list@)
            == ranked,
    }
}

/// What an alias lookup comes to, given the branches that exist.
#[derive(Debug, Clone)]
pub enum AliasLookup {
    /// The alias names this branch, and the branch exists.
    Hit(String),
    /// The alias names this branch, and the branch no longer exists.
    Stale(String),
    /// No such alias is defined.
    Miss,
}

/// Whether `name` is one of `names`.
pub open spec fn is_listed(names: Seq<Seq<char>>, name: Seq<char>) -> bool {
    exists|i: int| 0 <= i < names.len() && names[i] == name
}

/// The ranking of the branches that match `pattern`. With fuzzy matching,
/// the fuzzy matches by combined score; without, the substring matches by
/// frecency alone.
pub open spec fn ranking(
    names: Seq<Seq<char>>,
    scored: Seq<ScoredBranch>,
    pattern: Seq<char>,
    ignore_case: bool,
    use_fuzzy: bool,
) -> Seq<(Seq<char>, i64)> {
    if use_fuzzy {
        by_score_descending(fused(fuzzy_ranking(names, pattern, ignore_case), scored))
    } else {
        by_score_descending(
            names_with_scores(
                names.filter(|name: Seq<char>| matches_spec(name, pattern, ignore_case)),
                scored,
            ),
        )
    }
}

/// Combines a fuzzy score in whole points with a frecency score in
/// millionths into one score in millionths.
pub fn combined_score(fuzzy_score: i64, frecency_score: i64) -> (score: i64)
    ensures
        score == combined(fuzzy_score as int, frecency_score as int),
{
    let sum: i128 = (fuzzy_score as i128) * (SCORE_SCALE as i128) + (frecency_score as i128) * (
    FRECENCY_MULTIPLIER as i128);
    if sum > i64::MAX as i128 {
        i64::MAX
    } else if sum < i64::MIN as i128 {
        i64::MIN
    } else {
        sum as i64
    }
}

/// The score of the last scored branch that carries `name`.
fn last_usage_score(scored: &[ScoredBranch], name: &String) -> (score: i64)
    ensures
        score == last_score(scored@, name@),
{
    let mut left: usize = scored.len();
    proof {
        assert(scored@.take(left as int) =~= scored@);
    }
    while left > 0
        invariant
            left <= scored@.len(),
            last_score(scored@, name@) == last_score(scored@.take(left as int), name@),
        decreases left,
    {
        let entry = &scored[left - 1];
        proof {
            assert(scored@.take(left as int).last() == scored@[left - 1]);
            assert(scored@.take(left as int).drop_last() =~= scored@.take(left - 1));
        }
        if entry.name == *name {
            return entry.score;
        }
        left -= 1;
    }
    proof {
        assert(scored@.take(0).len() == 0);
    }
    0
}

/// Ranks fuzzy matches by combined score: the fuzzy score of each match plus
/// the weighted frecency score of its branch, best first. A branch without
/// a score has frecency zero; of several scores for one branch the last
/// counts.
pub fn combine_fuzzy_and_frecency_scores(fuzzy_matches: &[ScoredMatch], scored: &[ScoredBranch])
    -> (ranked: Vec<(String, i64)>)
    ensures
        pair_views(ranked@) == by_score_descending(fused(match_views(fuzzy_matches@), scored@)),
{
    let mut pairs: Vec<(String, i64)> = Vec::new();
    let mut i: usize = 0;
    while i < fuzzy_matches.len()
        invariant
            i <= fuzzy_matches@.len(),
            pairs@.len() == i,
            forall|q: int|
                0 <= q < i ==> (#[trigger] pairs@[q]).0@ == fuzzy_matches@[q].branch@ && pairs@[q].1
                    == combined(
                    fuzzy_matches@[q].score as int,
                    last_score(scored@, fuzzy_matches@[q].branch@),
                ),
        decreases fuzzy_matches@.len() - i,
    {
        let found = &fuzzy_matches[i];
        let frecency_score = last_usage_score(scored, &found.branch);
        pairs.push((found.branch.clone(), combined_score(found.score, frecency_score)));
        i += 1;
    }
    proof {
        assert(pair_views(pairs@) =~= fused(match_views(fuzzy_matches@), scored@));
    }
    sort_pairs_descending(&pairs)
}

/// Whether the best candidate is far enough ahead to be taken without
/// asking: the ratio of the best score to the second is at least the
/// threshold, given in hundredths, or the second score is zero.
pub fn should_auto_select(top_score: i64, second_score: i64, threshold: u32) -> (auto: bool)
    ensures
        auto == ratio_reaches(top_score as int, second_score as int, threshold as int),
{
    if second_score == 0 {
        true
    } else {
        let left: i128 = 100 * (top_score as i128);
        proof {
            assert(-0x1_0000_0000 * 0x8000_0000_0000_0000 <= (threshold as int) * (
            second_score as int) <= 0x1_0000_0000 * 0x8000_0000_0000_0000) by (nonlinear_arith)
                requires
                    0 <= threshold as int <= 0x1_0000_0000,
                    -0x8000_0000_0000_0000 <= second_score as int <= 0x8000_0000_0000_0000,
            ;
        }
        let right: i128 = (threshold as i128) * (second_score as i128);
        if second_score > 0 {
            left >= right
        } else {
            left <= right
        }
    }
}

/// Decides among ranked candidates, best first: an error without
/// candidates, the single candidate if there is one, otherwise the best
/// candidate if it is far enough ahead and no menu was demanded, and the
/// whole list for the user to choose from if not.
pub fn select(ranked: Vec<(String, i64)>, pattern: &str, force_interactive: bool, threshold: u32)
    -> (outcome: Result<Selection, GgoError>)
    ensures
        follows_decision(
            outcome,
            pair_views(ranked@),
            pattern@,
            decision(pair_views(ranked@), force_interactive, threshold as int),
        ),
{
    if ranked.len() == 0 {
        return Err(GgoError::NoMatchingBranches(pattern.to_owned()));
    }
    if ranked.len() == 1 {
        return Ok(Selection::Chosen(ranked[0].0.clone()));
    }
    if !force_interactive && should_auto_select(ranked[0].1, ranked[1].1, threshold) {
        return Ok(Selection::Chosen(ranked[0].0.clone()));
    }
    Ok(Selection::NeedsChoice(ranked))
}

/// Whether `name` is one of `branches`.
pub fn branch_exists(branches: &[String], name: &String) -> (found: bool)
    ensures
        found == is_listed(texts(branches@), name@),
{
    let mut i: usize = 0;
    while i < branches.len()
        invariant
            i <= branches@.len(),
            forall|q: int| 0 <= q < i ==> texts(branches@)[q] != name@,
        decreases branches@.len() - i,
    {
        if branches[i] == *name {
            proof {
                assert(texts(branches@)[i as int] == name@);
            }
            return true;
        }
        i += 1;
    }
    false
}

/// Judges the target of an alias against the branches that exist now: a
/// target that is gone makes the alias stale, which is a miss with a warning.
pub fn resolve_alias(target: Option<String>, branches: &[String]) -> (lookup: AliasLookup)
    ensures
        match target {
            None => lookup is Miss,
            Some(name) => if is_listed(texts(branches@), name@) {
                lookup matches AliasLookup::Hit(hit) && hit@ == name@
            } else {
                lookup matches AliasLookup::Stale(stale) && stale@ == name@
            },
        },
{
    match target {
        None => AliasLookup::Miss,
        Some(name) => {
            if branch_exists(branches, &name) {
                AliasLookup::Hit(name)
            } else {
                AliasLookup::Stale(name)
            }
        },
    }
}

/// Ranks the branches that match `pattern`, best first, without any side
/// effect. With fuzzy matching the ranking fuses match quality and
/// frecency; without, frecency alone ranks the substring matches.
pub fn list_matches(
    branches: &[String],
    scored: &[ScoredBranch],
    pattern: &str,
    ignore_case: bool,
    use_fuzzy: bool,
) -> (ranked: Vec<(String, i64)>)
    ensures
        pair_views(ranked@) == ranking(
            texts(branches@),
            scored@,
            pattern@,
            ignore_case,
            use_fuzzy,
        ),
{
    if use_fuzzy {
        let fuzzy_matches = fuzzy_filter_branches(branches, pattern, ignore_case);
        combine_fuzzy_and_frecency_scores(fuzzy_matches.as_slice(), scored)
    } else {
        let kept = filter_branches(branches, pattern, ignore_case);
        let mut names: Vec<String> = Vec::new();
        let mut i: usize = 0;
        while i < kept.len()
            invariant
                i <= kept@.len(),
                names@.len() == i,
                forall|q: int| 0 <= q < i ==> (#[trigger] names@[q])@ == kept@[q]@,
            decreases kept@.len() - i,
        {
            names.push(kept[i].clone());
            i += 1;
        }
        proof {
            assert(texts(names@) =~= crate::matcher::borrowed_texts(kept@));
        }
        sort_branches_by_frecency(names.as_slice(), scored)
    }
}

} // verus!
