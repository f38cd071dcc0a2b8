//! Matching branch names against a pattern: by substring, or by fuzzy
//! subsequence alignment with a quality score.

use vstd::prelude::*;
use crate::order::{by_score_descending, descending_order, sort_descending};
use crate::text::{chars_of, contains, contains_seq, texts};

verus! {

/// A branch name with the quality score of its fuzzy match.
#[derive(Debug, Clone)]
pub struct ScoredMatch {
    pub branch: String,
    pub score: i64,
}

impl View for ScoredMatch {
    type V = (Seq<char>, i64);

    open spec fn view(&self) -> (Seq<char>, i64) {
        (self.branch@, self.score)
    }
}

/// The lower-case form that `str::to_lowercase` gives a text, by Unicode's
/// case mapping.
pub uninterp spec fn lowercase(s: Seq<char>) -> Seq<char>;

/// The score that the skim matcher, set to respect case, gives `text` for
/// `pattern`; `None` where the pattern cannot be aligned with the text.
pub uninterp spec fn skim_score(text: Seq<char>, pattern: Seq<char>) -> Option<i64>;

/// The form in which a text is compared: lower case when case is ignored.
pub open spec fn folded(s: Seq<char>, ignore_case: bool) -> Seq<char> {
    if ignore_case {
        lowercase(s)
    } else {
        s
    }
}

/// Substring match: the pattern occurs in the branch name, both taken in
/// lower case when case is ignored.
pub open spec fn matches_spec(branch: Seq<char>, pattern: Seq<char>, ignore_case: bool) -> bool {
    contains_seq(folded(branch, ignore_case), folded(pattern, ignore_case))
}

/// The fuzzy score of a branch name for a pattern, both taken in lower case
/// when case is ignored.
pub open spec fn fuzzy_score(branch: Seq<char>, pattern: Seq<char>, ignore_case: bool) -> Option<
    i64,
> {
    skim_score(folded(branch, ignore_case), folded(pattern, ignore_case))
}

/// The views of a list of scored matches.
pub open spec fn match_views(matches: Seq<ScoredMatch>) -> Seq<(Seq<char>, i64)> {
    matches.map_values(|m: ScoredMatch| m@)
}

/// The texts behind a list of borrowed names.
pub open spec fn borrowed_texts(names: Seq<&String>) -> Seq<Seq<char>> {
    names.map_values(|name: &String| name@)
}

/// The names that have a score, each with its score, in the order of `names`.
pub open spec fn kept_matches(names: Seq<Seq<char>>, scores: Seq<Option<i64>>) -> Seq<
    (Seq<char>, i64),
>
    decreases names.len(),
{
    if names.len() == 0 || scores.len() != names.len() {
        Seq::empty()
    } else {
        let rest = kept_matches(names.drop_last(), scores.drop_last());
        match scores.last() {
            Some(score) => rest.push((names.last(), score)),
            None => rest,
        }
    }
}

/// The ranking of the names that have a score: best score first, equal
/// scores in the order of `names`.
pub open spec fn ranked_matches(names: Seq<Seq<char>>, scores: Seq<Option<i64>>) -> Seq<
    (Seq<char>, i64),
> {
    by_score_descending(kept_matches(names, scores))
}

/// The fuzzy scores of `names` for `pattern`, one for each name.
pub open spec fn fuzzy_scores(names: Seq<Seq<char>>, pattern: Seq<char>, ignore_case: bool) -> Seq<
    Option<i64>,
> {
    names.map_values(|name: Seq<char>| fuzzy_score(name, pattern, ignore_case))
}

/// What fuzzy filtering returns: for the empty pattern every name with
/// score 0, in order; otherwise the names that the matcher can align with the
/// pattern, best score first.
pub open spec fn fuzzy_ranking(names: Seq<Seq<char>>, pattern: Seq<char>, ignore_case: bool) -> Seq<
    (Seq<char>, i64),
> {
    if pattern.len() == 0 {
        names.map_values(|name: Seq<char>| (name, 0i64))
    } else {
        ranked_matches(names, fuzzy_scores(names, pattern, ignore_case))
    }
}

/// Lower-cases a text with `str::to_lowercase`. The result is a function of
/// the text alone, and the empty text stays empty.
#[verifier::external_body]
fn to_lowercase(s: &str) -> (out: String)
    ensures
        out@ == lowercase(s@),
        s@.len() == 0 ==> out@.len() == 0,
{
    s.to_lowercase()
}

/// Scores `text` against `pattern` with `SkimMatcherV2::default()`, set by
/// `respect_case` to tell capitals from small letters, through
/// `FuzzyMatcher::fuzzy_match`. The result is a function of the two texts
/// alone.
#[verifier::external_body]
fn skim_match(text: &str, pattern: &str) -> (score: Option<i64>)
    ensures
        score == skim_score(text@, pattern@),
{
    let matcher = fuzzy_matcher::skim::SkimMatcherV2::default().respect_case();
    fuzzy_matcher::FuzzyMatcher::fuzzy_match(&matcher, text, pattern)
}

/// Whether `pattern` occurs in `branch` as a substring, without regard to
/// case when `ignore_case` is set. The empty pattern matches every name.
pub fn matches(branch: &str, pattern: &str, ignore_case: bool) -> (found: bool)
    ensures
        found == matches_spec(branch@, pattern@, ignore_case),
        pattern@.len() == 0 ==> found,
{
    let found = if ignore_case {
        let branch_lower = to_lowercase(branch);
        let pattern_lower = to_lowercase(pattern);
        let hay = chars_of(branch_lower.as_str());
        let needle = chars_of(pattern_lower.as_str());
        contains(&hay, &needle)
    } else {
        let hay = chars_of(branch);
        let needle = chars_of(pattern);
        contains(&hay, &needle)
    };
    proof {
        if pattern@.len() == 0 {
            let hay = folded(branch@, ignore_case);
            let needle = folded(pattern@, ignore_case);
            assert(needle.len() == 0);
            assert(hay.subrange(0, 0) =~= needle);
            assert(crate::text::occurs_at(hay, needle, 0));
        }
    }
    found
}

/// The branch names that match `pattern` as a substring, in the order in
/// which they were given.
pub fn filter_branches<'a>(branches: &'a [String], pattern: &str, ignore_case: bool) -> (kept: Vec<
    &'a String,
>)
    ensures
        borrowed_texts(kept@) == texts(branches@).filter(
            |name: Seq<char>| matches_spec(name, pattern@, ignore_case),
        ),
        pattern@.len() == 0 ==> borrowed_texts(kept@) == texts(branches@),
{
    let ghost pred = |name: Seq<char>| matches_spec(name, pattern@, ignore_case);
    let mut kept: Vec<&'a String> = Vec::new();
    let mut i: usize = 0;
    proof {
        reveal(Seq::filter);
        assert(texts(branches@).take(0) =~= Seq::empty());
        assert(borrowed_texts(kept@) =~= Seq::empty());
    }
    while i < branches.len()
        invariant
            i <= branches@.len(),
            pred == |name: Seq<char>| matches_spec(name, pattern@, ignore_case),
            borrowed_texts(kept@) == texts(branches@).take(i as int).filter(pred),
            pattern@.len() == 0 ==> borrowed_texts(kept@) == texts(branches@).take(i as int),
        decreases branches@.len() - i,
    {
        let branch: &'a String = &branches[i];
        let found = matches(branch.as_str(), pattern, ignore_case);
        proof {
            reveal(Seq::filter);
            let next = texts(branches@).take(i + 1);
            assert(next.drop_last() =~= texts(branches@).take(i as int));
            assert(next.last() == branch@);
            assert(pred(branch@) == found);
            if found {
                assert(borrowed_texts(kept@.push(branch)) =~= borrowed_texts(kept@).push(
                    branch@,
                ));
                assert(texts(branches@).take(i as int).push(branch@) =~= next);
            }
        }
        if found {
            kept.push(branch);
        }
        i += 1;
    }
    proof {
        assert(texts(branches@).take(i as int) =~= texts(branches@));
    }
    kept
}

/// Ranks the names that have a score: those with `None` are left out, the
/// others come with their score, best first, equal scores in the order of
/// `branches`.
pub fn rank_matches(branches: &[String], scores: &Vec<Option<i64>>) -> (ranked: Vec<ScoredMatch>)
    requires
        scores@.len() == branches@.len(),
    ensures
        match_views(ranked@) == ranked_matches(texts(branches@), scores@),
{
    let ghost names = texts(branches@);
    let mut kept: Vec<ScoredMatch> = Vec::new();
    let mut keys: Vec<i64> = Vec::new();
    let mut i: usize = 0;
    proof {
        assert(match_views(kept@) =~= kept_matches(names.take(0), scores@.take(0)));
    }
    while i < branches.len()
        invariant
            i <= branches@.len(),
            scores@.len() == branches@.len(),
            names == texts(branches@),
            match_views(kept@) == kept_matches(names.take(i as int), scores@.take(i as int)),
            keys@ == match_views(kept@).map_values(|e: (Seq<char>, i64)| e.1),
        decreases branches@.len() - i,
    {
        proof {
            assert(names.take(i + 1).drop_last() =~= names.take(i as int));
            assert(scores@.take(i + 1).drop_last() =~= scores@.take(i as int));
            assert(names.take(i + 1).last() == branches@[i as int]@);
            assert(scores@.take(i + 1).last() == scores@[i as int]);
        }
        match scores[i] {
            Some(score) => {
                let entry = ScoredMatch { branch: branches[i].clone(), score };
                proof {
                    assert(match_views(kept@.push(entry)) =~= match_views(kept@).push(entry@));
                    assert(keys@.push(score) =~= match_views(kept@.push(entry)).map_values(
                        |e: (Seq<char>, i64)| e.1,
                    ));
                }
                kept.push(entry);
                keys.push(score);
            },
            None => {},
        }
        i += 1;
    }
    proof {
        assert(names.take(i as int) =~= names);
        assert(scores@.take(i as int) =~= scores@);
    }
    let order = sort_descending(&keys);
    let mut ranked: Vec<ScoredMatch> = Vec::new();
    let mut p: usize = 0;
    while p < order.len()
        invariant
            p <= order@.len(),
            order@.len() == keys@.len(),
            kept@.len() == keys@.len(),
            forall|q: int| 0 <= q < order@.len() ==> #[trigger] order@[q] < keys@.len(),
            ranked@.len() == p,
            forall|q: int| 0 <= q < p ==> (#[trigger] ranked@[q])@ == kept@[order@[q] as int]@,
        decreases order@.len() - p,
    {
        let source = &kept[order[p]];
        ranked.push(ScoredMatch { branch: source.branch.clone(), score: source.score });
        p += 1;
    }
    proof {
        let items = match_views(kept@);
        let target = by_score_descending(items);
        assert(match_views(ranked@).len() == target.len());
        assert forall|q: int| 0 <= q < target.len() implies match_views(ranked@)[q]
            == target[q] by {
            assert(order@[q] as int == descending_order(keys@)[q]);
            assert(items[order@[q] as int] == kept@[order@[q] as int]@);
        }
        assert(match_views(ranked@) =~= target);
    }
    ranked
}

/// Filters and scores branch names by fuzzy matching. The empty pattern
/// keeps every name, with score 0 and in the given order; any other pattern
/// keeps the names that the matcher can align with it, best score first.
pub fn fuzzy_filter_branches(branches: &[String], pattern: &str, ignore_case: bool) -> (ranked: Vec<
    ScoredMatch,
>)
    ensures
        match_views(ranked@) == fuzzy_ranking(texts(branches@), pattern@, ignore_case),
{
    let ghost names = texts(branches@);
    if pattern.is_empty() {
        let mut all: Vec<ScoredMatch> = Vec::new();
        let mut i: usize = 0;
        while i < branches.len()
            invariant
                i <= branches@.len(),
                all@.len() == i,
                forall|q: int| 0 <= q < i ==> (#[trigger] all@[q])@ == (branches@[q]@, 0i64),
            decreases branches@.len() - i,
        {
            all.push(ScoredMatch { branch: branches[i].clone(), score: 0 });
            i += 1;
        }
        proof {
            assert(match_views(all@) =~= names.map_values(|name: Seq<char>| (name, 0i64)));
        }
        return all;
    }
    let pattern_text: String = if ignore_case {
        to_lowercase(pattern)
    } else {
        pattern.to_owned()
    };
    let mut scores: Vec<Option<i64>> = Vec::new();
    let mut i: usize = 0;
    while i < branches.len()
        invariant
            i <= branches@.len(),
            scores@.len() == i,
            pattern_text@ == folded(pattern@, ignore_case),
            forall|q: int|
                0 <= q < i ==> #[trigger] scores@[q] == fuzzy_score(
                    branches@[q]@,
                    pattern@,
                    ignore_case,
                ),
        decreases branches@.len() - i,
    {
        let score = if ignore_case {
            let text = to_lowercase(branches[i].as_str());
            skim_match(text.as_str(), pattern_text.as_str())
        } else {
            skim_match(branches[i].as_str(), pattern_text.as_str())
        };
        scores.push(score);
        i += 1;
    }
    proof {
        assert(scores@ =~= fuzzy_scores(names, pattern@, ignore_case));
    }
    rank_matches(branches, &scores)
}

} // verus!
