use ggo::error::GgoError;


#[test]
fn test_not_git_repository_error() {
    let err = GgoError::NotGitRepository;
    let msg = err.message();
    assert!(msg.contains("Not in a git repository"));
    assert!(msg.contains("Run this command from within"));
}

#[test]
fn test_branch_not_found_error() {
    let err = GgoError::BranchNotFound("feature/auth".to_string());
    let msg = err.message();
    assert!(msg.contains("feature/auth"));
    assert!(msg.contains("not found"));
    assert!(msg.contains("git branch"));
}

#[test]
fn test_no_matching_branches_error() {
    let err = GgoError::NoMatchingBranches("xyz".to_string());
    let msg = err.message();
    assert!(msg.contains("No branches match pattern 'xyz'"));
    assert!(msg.contains("Try:"));
    assert!(msg.contains("shorter pattern"));
}

#[test]
fn test_checkout_failed_error() {
    let err = GgoError::CheckoutFailed("main".to_string(), "uncommitted changes".to_string());
    let msg = err.message();
    assert!(msg.contains("Failed to checkout branch 'main'"));
    assert!(msg.contains("uncommitted changes"));
}

#[test]
fn test_invalid_branch_name_error() {
    let err = GgoError::InvalidBranchName(
        "-bad-name".to_string(),
        "cannot start with dash".to_string(),
    );
    let msg = err.message();
    assert!(msg.contains("Invalid branch name: -bad-name"));
    assert!(msg.contains("cannot start with dash"));
}

#[test]
fn test_database_error() {
    let err = GgoError::DatabaseError("connection failed".to_string());
    let msg = err.message();
    assert!(msg.contains("Database error"));
    assert!(msg.contains("connection failed"));
}

#[test]
fn test_config_error() {
    let err = GgoError::ConfigError("invalid TOML syntax".to_string());
    let msg = err.message();
    assert!(msg.contains("Configuration error"));
    assert!(msg.contains("config.toml"));
}

#[test]
fn test_no_previous_branch_error() {
    let err = GgoError::NoPreviousBranch;
    let msg = err.message();
    assert!(msg.contains("No previous branch"));
    assert!(msg.contains("ggo -"));
}

#[test]
fn test_user_cancelled_error() {
    let err = GgoError::UserCancelled;
    let msg = err.message();
    assert!(msg.contains("User cancelled"));
}

#[test]
fn test_alias_not_found_error() {
    let err = GgoError::AliasNotFound("m".to_string());
    let msg = err.message();
    assert!(msg.contains("Alias 'm' not found"));
    assert!(msg.contains("ggo alias --list"));
}

#[test]
fn test_invalid_shell_error() {
    let err = GgoError::InvalidShell("invalid".to_string());
    let msg = err.message();
    assert!(msg.contains("Unsupported shell"));
    assert!(msg.contains("invalid"));
    assert!(msg.contains("Supported shells:"));
    assert!(msg.contains("bash"));
}





#[test]
fn test_result_type_alias() {
    let ok: Result<i32, GgoError> = Ok(42);
    let err: Result<i32, GgoError> = Err(GgoError::UserCancelled);

    assert!(ok.is_ok());
    assert!(err.is_err());
}
