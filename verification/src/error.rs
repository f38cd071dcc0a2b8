//! The errors that the tool reports, and the words in which it reports them.

use vstd::prelude::*;

verus! {

/// What can go wrong, by kind, with the values that the report names.
#[derive(Debug, Clone)]
pub enum GgoError {
    /// The working directory is not inside a git repository.
    NotGitRepository,
    /// The named branch does not exist.
    BranchNotFound(String),
    /// No branch matches the pattern.
    NoMatchingBranches(String),
    /// Checking out the branch failed, for the given reason.
    CheckoutFailed(String, String),
    /// The branch name breaks a rule, given with the reason.
    InvalidBranchName(String, String),
    /// The pattern breaks a rule, given with the reason.
    InvalidPattern(String, String),
    /// The repository path breaks a rule, given with the reason.
    InvalidRepoPath(String, String),
    /// The alias name breaks a rule, given with the reason.
    InvalidAliasName(String, String),
    /// The usage store failed, for the given reason.
    DatabaseError(String),
    /// The configuration could not be read, for the given reason.
    ConfigError(String),
    /// No previous branch is on record for the repository.
    NoPreviousBranch,
    /// The user left the interactive menu without choosing.
    UserCancelled,
    /// The alias is not defined in the repository.
    AliasNotFound(String),
    /// Completions were asked for a shell that is not supported.
    InvalidShell(String),
    /// Anything else, in its own words.
    Other(String),
}

/// The report of an error, as the user reads it.
pub open spec fn message_text(error: GgoError) -> Seq<char> {
    match error {
        GgoError::NotGitRepository => {
            "Not in a git repository\n\nRun this command from within a git repository."@
        },
        GgoError::BranchNotFound(name) => {
            "Branch '"@ + name@ + "' not found\n\nRun 'git branch' to see available branches."@
        },
        GgoError::NoMatchingBranches(pattern) => {
            "No branches match pattern '"@ + pattern@
                + "'\n\nTry:\n  • Using a shorter pattern\n  • Running 'ggo --list \"\"' to see all branches\n  • Using case-insensitive mode with '-i'"@
        },
        GgoError::CheckoutFailed(branch, reason) => {
            "Failed to checkout branch '"@ + branch@ + "': "@ + reason@
        },
        GgoError::InvalidBranchName(name, reason) => {
            "Invalid branch name: "@ + name@ + "\n\n"@ + reason@
        },
        GgoError::InvalidPattern(pattern, reason) => {
            "Invalid pattern: "@ + pattern@ + "\n\n"@ + reason@
        },
        GgoError::InvalidRepoPath(path, reason) => {
            "Invalid repository path: "@ + path@ + "\n\n"@ + reason@
        },
        GgoError::InvalidAliasName(alias, reason) => {
            "Invalid alias name: "@ + alias@ + "\n\n"@ + reason@
        },
        GgoError::DatabaseError(reason) => { "Database error: "@ + reason@ },
        GgoError::ConfigError(reason) => {
            "Configuration error: "@ + reason@
                + "\n\nCheck your config file at ~/.config/ggo/config.toml"@
        },
        GgoError::NoPreviousBranch => {
            "No previous branch found\n\nYou need to switch branches at least once before using 'ggo -'"@
        },
        GgoError::UserCancelled => { "User cancelled operation"@ },
        GgoError::AliasNotFound(alias) => {
            "Alias '"@ + alias@
                + "' not found in this repository\n\nRun 'ggo alias --list' to see all aliases."@
        },
        GgoError::InvalidShell(shell) => {
            "Unsupported shell: '"@ + shell@
                + "'\n\nSupported shells:\n  • bash\n  • zsh\n  • fish\n  • powershell\n  • elvish\n\nExample: ggo --generate-completion bash"@
        },
        GgoError::Other(words) => { words@ },
    }
}

/// `head`, then `middle`, then `tail`, as one string.
fn join3(head: &str, middle: &str, tail: &str) -> (out: String)
    ensures
        out@ == head@ + middle@ + tail@,
{
    let mut out = head.to_owned();
    out.append(middle);
    out.append(tail);
    out
}

impl GgoError {
    /// The report of this error, as the user reads it.
    pub fn message(&self) -> (out: String)
        ensures
            out@ == message_text(*self),
    {
        match self {
            GgoError::NotGitRepository => {
                "Not in a git repository\n\nRun this command from within a git repository.".to_owned()
            },
            GgoError::BranchNotFound(name) => {
                join3(
                    "Branch '",
                    name.as_str(),
                    "' not found\n\nRun 'git branch' to see available branches.",
                )
            },
            GgoError::NoMatchingBranches(pattern) => {
                join3(
                    "No branches match pattern '",
                    pattern.as_str(),
                    "'\n\nTry:\n  • Using a shorter pattern\n  • Running 'ggo --list \"\"' to see all branches\n  • Using case-insensitive mode with '-i'",
                )
            },
            GgoError::CheckoutFailed(branch, reason) => {
                let mut out = join3("Failed to checkout branch '", branch.as_str(), "': ");
                out.append(reason.as_str());
                out
            },
            GgoError::InvalidBranchName(name, reason) => {
                let mut out = join3("Invalid branch name: ", name.as_str(), "\n\n");
                out.append(reason.as_str());
                out
            },
            GgoError::InvalidPattern(pattern, reason) => {
                let mut out = join3("Invalid pattern: ", pattern.as_str(), "\n\n");
                out.append(reason.as_str());
                out
            },
            GgoError::InvalidRepoPath(path, reason) => {
                let mut out = join3("Invalid repository path: ", path.as_str(), "\n\n");
                out.append(reason.as_str());
                out
            },
            GgoError::InvalidAliasName(alias, reason) => {
                let mut out = join3("Invalid alias name: ", alias.as_str(), "\n\n");
                out.append(reason.as_str());
                out
            },
            GgoError::DatabaseError(reason) => {
                let mut out = "Database error: ".to_owned();
                out.append(reason.as_str());
                out
            },
            GgoError::ConfigError(reason) => {
                join3(
                    "Configuration error: ",
                    reason.as_str(),
                    "\n\nCheck your config file at ~/.config/ggo/config.toml",
                )
            },
            GgoError::NoPreviousBranch => {
                "No previous branch found\n\nYou need to switch branches at least once before using 'ggo -'".to_owned()
            },
            GgoError::UserCancelled => { "User cancelled operation".to_owned() },
            GgoError::AliasNotFound(alias) => {
                join3(
                    "Alias '",
                    alias.as_str(),
                    "' not found in this repository\n\nRun 'ggo alias --list' to see all aliases.",
                )
            },
            GgoError::InvalidShell(shell) => {
                join3(
                    "Unsupported shell: '",
                    shell.as_str(),
                    "'\n\nSupported shells:\n  • bash\n  • zsh\n  • fish\n  • powershell\n  • elvish\n\nExample: ggo --generate-completion bash",
                )
            },
            GgoError::Other(words) => { words.clone() },
        }
    }
}

} // verus!
