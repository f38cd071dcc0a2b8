//! Resolving a pattern to a branch: an alias first, then the ranking of the
//! matching branches, and what has to be kept on record around the switch.

use vstd::prelude::*;
use crate::constants::AUTO_SELECT_THRESHOLD;
use crate::error::GgoError;
use crate::order::pair_views;
use crate::selector::{
    branch_exists, decision, is_listed, list_matches, ranking, resolve_alias, select, AliasLookup,
    Decision, Selection,
};
use crate::frecency::ScoredBranch;
use crate::text::texts;

verus! {

/// How a pattern was resolved.
#[derive(Debug, Clone)]
pub enum Resolution {
    /// The pattern is an alias of this branch.
    Alias(String),
    /// This branch is the best match, far enough ahead or alone.
    Branch(String),
    /// The ranked candidates among which the user chooses.
    NeedsChoice(Vec<(String, i64)>),
}

/// A resolved pattern, with the target of the alias that was passed over
/// because its branch no longer exists, if there was one.
#[derive(Debug, Clone)]
pub struct Resolved {
    pub outcome: Resolution,
    pub stale_alias: Option<String>,
}

/// Whether `stale` reports exactly the alias target `target`.
pub open spec fn reports_stale(stale: Option<String>, target: Option<String>) -> bool {
    match target {
        None => stale is None,
        Some(name) => stale matches Some(reported) && reported@ == name@,
    }
}

/// Whether `outcome` is the resolution of `pattern`: the target of the alias
/// where that branch exists; otherwise what selection decides on the ranking
/// of the matching branches, with a stale alias reported beside it.
pub open spec fn resolves_to(
    outcome: Result<Resolved, GgoError>,
    names: Seq<Seq<char>>,
    scored: Seq<ScoredBranch>,
    alias_target: Option<String>,
    pattern: Seq<char>,
    ignore_case: bool,
    use_fuzzy: bool,
    force_interactive: bool,
) -> bool {
    if alias_target is Some && is_listed(names, alias_target->0@) {
        outcome matches Ok(resolved) && resolved.stale_alias is None && (
        resolved.outcome matches Resolution::Alias(branch) && branch@ == alias_target->0@)
    } else {
        let ranked = ranking(names, scored, pattern, ignore_case, use_fuzzy);
        match decision(ranked, force_interactive, AUTO_SELECT_THRESHOLD as int) {
            Decision::NoMatch => outcome matches Err(GgoError::NoMatchingBranches(p)) && p@
                == pattern,
            Decision::TakeFirst => outcome matches Ok(resolved) && reports_stale(
                resolved.stale_alias,
                alias_target,
            ) && (resolved.outcome matches Resolution::Branch(branch) && branch@ == ranked[0].0),
            Decision::Ask => outcome matches Ok(resolved) && reports_stale(
                resolved.stale_alias,
                alias_target,
            ) && (resolved.outcome matches Resolution::NeedsChoice(list) && pair_views(list@)
                == ranked),
        }
    }
}

/// Resolves `pattern` among `branches`. `alias_target` is what the store
/// holds for the pattern as an alias in this repository. An alias whose
/// branch exists wins; one whose branch is gone is reported and passed
/// over. Otherwise the matching branches are ranked and selection decides.
pub fn resolve(
    branches: &[String],
    scored: &[ScoredBranch],
    alias_target: Option<String>,
    pattern: &str,
    ignore_case: bool,
    use_fuzzy: bool,
    force_interactive: bool,
) -> (outcome: Result<Resolved, GgoError>)
    ensures
        resolves_to(
            outcome,
            texts(branches@),
            scored@,
            alias_target,
            pattern@,
            ignore_case,
            use_fuzzy,
            force_interactive,
        ),
{
    let stale_alias = match resolve_alias(alias_target, branches) {
        AliasLookup::Hit(branch) => {
            return Ok(Resolved { outcome: Resolution::Alias(branch), stale_alias: None });
        },
        AliasLookup::Stale(target) => Some(target),
        AliasLookup::Miss => None,
    };
    let ranked = list_matches(branches, scored, pattern, ignore_case, use_fuzzy);
    match select(ranked, pattern, force_interactive, AUTO_SELECT_THRESHOLD) {
        Err(error) => Err(error),
        Ok(Selection::Chosen(branch)) => Ok(
            Resolved { outcome: Resolution::Branch(branch), stale_alias },
        ),
        Ok(Selection::NeedsChoice(list)) => Ok(
            Resolved { outcome: Resolution::NeedsChoice(list), stale_alias },
        ),
    }
}

/// What to do before switching to `target`: the switch is refused if the
/// branch is not among the branches that exist now; otherwise the current
/// branch, where it is known and differs from the target, is to be saved as
/// the previous branch.
pub fn plan_checkout(target: &String, live_branches: &[String], current: Option<String>) -> (plan:
    Result<Option<String>, GgoError>)
    ensures
        !is_listed(texts(live_branches@), target@) ==> (plan matches Err(
            GgoError::BranchNotFound(name),
        ) && name@ == target@),
        is_listed(texts(live_branches@), target@) ==> (plan matches Ok(save) && match current {
            Some(branch) => if branch@ == target@ {
                save is None
            } else {
                save matches Some(saved) && saved@ == branch@
            },
            None => save is None,
        }),
{
    if !branch_exists(live_branches, target) {
        return Err(GgoError::BranchNotFound(target.clone()));
    }
    match current {
        Some(branch) => {
            if branch == *target {
                Ok(None)
            } else {
                Ok(Some(branch))
            }
        },
        None => Ok(None),
    }
}

/// What to do to go back to the previous branch: an error if none is on
/// record or if it no longer exists; otherwise that branch is the target,
/// and the current branch, where known, is to be saved in its place.
pub fn plan_checkout_previous(
    previous: Option<String>,
    live_branches: &[String],
    current: Option<String>,
) -> (plan: Result<(String, Option<String>), GgoError>)
    ensures
        match previous {
            None => plan matches Err(GgoError::NoPreviousBranch),
            Some(branch) => if is_listed(texts(live_branches@), branch@) {
                plan matches Ok(steps) && steps.0@ == branch@ && steps.1 == current
            } else {
                plan matches Err(GgoError::BranchNotFound(name)) && name@ == branch@
            },
        },
{
    match previous {
        None => Err(GgoError::NoPreviousBranch),
        Some(branch) => {
            if branch_exists(live_branches, &branch) {
                Ok((branch, current))
            } else {
                Err(GgoError::BranchNotFound(branch))
            }
        },
    }
}

} // verus!
