//! What an invocation asks for: the parsed command line, and the decisions
//! that turn it into one action.

use vstd::prelude::*;
use crate::error::GgoError;
use crate::selector::{branch_exists, is_listed};
use crate::text::texts;
use crate::validation::{
    alias_name_fault, branch_name_fault, invalid_name, is_report, pattern_fault,
    validate_alias_name, validate_branch_name, validate_pattern, NameKind,
};

verus! {

/// The command line, parsed.
#[derive(Debug, Clone)]
pub struct Cli {
    pub command: Option<Commands>,
    pub pattern: Option<String>,
    pub list: bool,
    pub ignore_case: bool,
    pub no_fuzzy: bool,
    pub interactive: bool,
    pub stats: bool,
    pub version: bool,
}

/// The subcommands.
#[derive(Debug, Clone)]
pub enum Commands {
    /// Manage the aliases of the repository.
    Alias { alias: Option<String>, branch: Option<String>, list: bool, remove: bool },
    /// Clean up the usage store.
    Cleanup { older_than: i64, deleted: bool, optimize: bool, size: bool },
}

/// What an alias command does.
#[derive(Debug, Clone)]
pub enum AliasAction {
    /// List the aliases of the repository.
    List,
    /// Remove the alias.
    Remove(String),
    /// Make the alias a name for the branch.
    Create(String, String),
    /// Show what the alias names.
    Show(String),
}

/// What a cleanup command does, step by step.
#[derive(Clone, Copy, Debug, PartialEq, Eq, Structural)]
pub struct CleanupPlan {
    pub show_size: bool,
    pub remove_deleted: bool,
    pub remove_old: bool,
    pub optimize: bool,
    pub show_help: bool,
}

/// What one invocation does.
#[derive(Debug, Clone)]
pub enum Invocation {
    /// Print the version.
    Version,
    /// Run an alias command.
    Alias { alias: Option<String>, branch: Option<String>, list: bool, remove: bool },
    /// Run a cleanup command.
    Cleanup { older_than: i64, plan: CleanupPlan },
    /// Show the statistics.
    Stats,
    /// Go back to the previous branch.
    Previous,
    /// List the branches that match the pattern.
    List { pattern: String, ignore_case: bool, use_fuzzy: bool },
    /// Switch to the branch that the pattern resolves to.
    Checkout { pattern: String, ignore_case: bool, use_fuzzy: bool, interactive: bool },
}

/// Age in days that the cleanup of old records uses where none is given.
pub const DEFAULT_MAX_AGE_DAYS: i64 = 365;

/// The steps of a cleanup command: old records are removed when an age was
/// given or the store is being optimized; the help is shown when nothing
/// was asked for.
pub open spec fn cleanup_plan(older_than_days: int, deleted: bool, optimize: bool, size: bool)
    -> CleanupPlan {
    CleanupPlan {
        show_size: size,
        remove_deleted: deleted,
        remove_old: older_than_days < DEFAULT_MAX_AGE_DAYS || optimize,
        optimize,
        show_help: !size && !deleted && !optimize && older_than_days == DEFAULT_MAX_AGE_DAYS,
    }
}

/// Decides the steps of a cleanup command.
pub fn plan_cleanup(older_than_days: i64, deleted: bool, optimize: bool, size: bool) -> (plan:
    CleanupPlan)
    ensures
        plan == cleanup_plan(older_than_days as int, deleted, optimize, size),
{
    CleanupPlan {
        show_size: size,
        remove_deleted: deleted,
        remove_old: older_than_days < DEFAULT_MAX_AGE_DAYS || optimize,
        optimize,
        show_help: !size && !deleted && !optimize && older_than_days == DEFAULT_MAX_AGE_DAYS,
    }
}

/// The report for an alias command that names no alias.
pub open spec fn alias_required() -> Seq<char> {
    "Alias name is required"@
}

/// The report for an invocation without a pattern.
pub open spec fn pattern_required() -> Seq<char> {
    "Pattern argument is required\n\nUsage: ggo <pattern>\nTry 'ggo --help' for more information"@
}

/// Whether `outcome` is what an alias command with these arguments does:
/// listing wins; every other action needs the alias; removal comes next;
/// with a branch the alias is created, once both names pass their
/// validators, the alias first; without one the alias is shown.
pub open spec fn is_alias_plan(
    outcome: Result<AliasAction, GgoError>,
    alias: Option<String>,
    branch: Option<String>,
    list: bool,
    remove: bool,
) -> bool {
    if list {
        outcome matches Ok(AliasAction::List)
    } else if alias is None {
        outcome matches Err(GgoError::Other(words)) && words@ == alias_required()
    } else if remove {
        outcome matches Ok(AliasAction::Remove(name)) && name@ == alias->0@
    } else if branch is None {
        outcome matches Ok(AliasAction::Show(name)) && name@ == alias->0@
    } else if alias_name_fault(alias->0@) is Some {
        outcome matches Err(report) && is_report(
            report,
            NameKind::Alias,
            alias->0@,
            alias_name_fault(alias->0@)->0,
        )
    } else if branch_name_fault(branch->0@) is Some {
        outcome matches Err(report) && is_report(
            report,
            NameKind::Branch,
            branch->0@,
            branch_name_fault(branch->0@)->0,
        )
    } else {
        outcome matches Ok(AliasAction::Create(name, target)) && name@ == alias->0@ && target@
            == branch->0@
    }
}

/// Decides what an alias command does.
pub fn plan_alias_command(alias: Option<String>, branch: Option<String>, list: bool, remove: bool)
    -> (outcome: Result<AliasAction, GgoError>)
    ensures
        is_alias_plan(outcome, alias, branch, list, remove),
{
    if list {
        return Ok(AliasAction::List);
    }
    let name = match alias {
        Some(name) => name,
        None => {
            return Err(GgoError::Other("Alias name is required".to_owned()));
        },
    };
    if remove {
        return Ok(AliasAction::Remove(name));
    }
    let target = match branch {
        Some(target) => target,
        None => {
            return Ok(AliasAction::Show(name));
        },
    };
    match validate_alias_name(name.as_str()) {
        Ok(_) => {},
        Err(error) => {
            return Err(invalid_name(NameKind::Alias, name.as_str(), error));
        },
    }
    match validate_branch_name(target.as_str()) {
        Ok(_) => {},
        Err(error) => {
            return Err(invalid_name(NameKind::Branch, target.as_str(), error));
        },
    }
    Ok(AliasAction::Create(name, target))
}

/// Checks that the branch that an alias is to name exists.
pub fn check_alias_target(branch: &String, branches: &[String]) -> (outcome: Result<(), GgoError>)
    ensures
        is_listed(texts(branches@), branch@) ==> outcome is Ok,
        !is_listed(texts(branches@), branch@) ==> (outcome matches Err(
            GgoError::BranchNotFound(name),
        ) && name@ == branch@),
{
    if branch_exists(branches, branch) {
        Ok(())
    } else {
        Err(GgoError::BranchNotFound(branch.clone()))
    }
}

/// Whether `outcome` is what the invocation `cli` does: the version wins,
/// then a subcommand, then the statistics; everything else needs a pattern,
/// where `-` goes back to the previous branch and any other pattern, once
/// it passes its validator, is listed or checked out.
pub open spec fn is_invocation(outcome: Result<Invocation, GgoError>, cli: Cli) -> bool {
    if cli.version {
        outcome matches Ok(Invocation::Version)
    } else if cli.command is Some {
        match cli.command->0 {
            Commands::Alias { alias, branch, list, remove } => outcome matches Ok(
                Invocation::Alias { alias: a, branch: b, list: l, remove: r },
            ) && a == alias && b == branch && l == list && r == remove,
            Commands::Cleanup { older_than, deleted, optimize, size } => outcome matches Ok(
                Invocation::Cleanup { older_than: days, plan },
            ) && days == older_than && plan == cleanup_plan(
                older_than as int,
                deleted,
                optimize,
                size,
            ),
        }
    } else if cli.stats {
        outcome matches Ok(Invocation::Stats)
    } else if cli.pattern is None {
        outcome matches Err(GgoError::Other(words)) && words@ == pattern_required()
    } else if cli.pattern->0@ == seq!['-'] {
        outcome matches Ok(Invocation::Previous)
    } else if pattern_fault(cli.pattern->0@) is Some {
        outcome matches Err(report) && is_report(
            report,
            NameKind::Pattern,
            cli.pattern->0@,
            pattern_fault(cli.pattern->0@)->0,
        )
    } else if cli.list {
        outcome matches Ok(Invocation::List { pattern, ignore_case, use_fuzzy }) && pattern@
            == cli.pattern->0@ && ignore_case == cli.ignore_case && use_fuzzy == !cli.no_fuzzy
    } else {
        outcome matches Ok(Invocation::Checkout { pattern, ignore_case, use_fuzzy, interactive })
            && pattern@ == cli.pattern->0@ && ignore_case == cli.ignore_case && use_fuzzy
            == !cli.no_fuzzy && interactive == cli.interactive
    }
}

/// Decides what an invocation does.
pub fn plan_invocation(cli: Cli) -> (outcome: Result<Invocation, GgoError>)
    ensures
        is_invocation(outcome, cli),
{
    if cli.version {
        return Ok(Invocation::Version);
    }
    match cli.command {
        Some(Commands::Alias { alias, branch, list, remove }) => {
            return Ok(Invocation::Alias { alias, branch, list, remove });
        },
        Some(Commands::Cleanup { older_than, deleted, optimize, size }) => {
            return Ok(
                Invocation::Cleanup {
                    older_than,
                    plan: plan_cleanup(older_than, deleted, optimize, size),
                },
            );
        },
        None => {},
    }
    if cli.stats {
        return Ok(Invocation::Stats);
    }
    let pattern = match cli.pattern {
        Some(pattern) => pattern,
        None => {
            return Err(
                GgoError::Other(
                    "Pattern argument is required\n\nUsage: ggo <pattern>\nTry 'ggo --help' for more information".to_owned(),
                ),
            );
        },
    };
    proof {
        reveal_strlit("-");
        assert("-"@ =~= seq!['-']);
    }
    if pattern.as_str().unicode_len() == 1 && pattern.as_str().get_char(0) == '-' {
        assert(pattern@ =~= seq!['-']);
        return Ok(Invocation::Previous);
    }
    match validate_pattern(pattern.as_str()) {
        Ok(_) => {},
        Err(error) => {
            return Err(invalid_name(NameKind::Pattern, pattern.as_str(), error));
        },
    }
    if cli.list {
        Ok(Invocation::List { pattern, ignore_case: cli.ignore_case, use_fuzzy: !cli.no_fuzzy })
    } else {
        Ok(
            Invocation::Checkout {
                pattern,
                ignore_case: cli.ignore_case,
                use_fuzzy: !cli.no_fuzzy,
                interactive: cli.interactive,
            },
        )
    }
}

} // verus!
