use ggo::validation::{
    validate_alias_name, validate_branch_name, validate_pattern, validate_repo_path,
};


// Branch name validation tests
#[test]
fn test_validate_branch_name_valid() {
    assert!(validate_branch_name("feature/auth").is_ok());
    assert!(validate_branch_name("main").is_ok());
    assert!(validate_branch_name("bugfix-123").is_ok());
    assert!(validate_branch_name("feature/issue-#123_v2.0").is_ok());
}

#[test]
fn test_validate_branch_name_empty() {
    assert!(validate_branch_name("").is_err());
}

#[test]
fn test_validate_branch_name_starts_with_dash() {
    assert!(validate_branch_name("-bad").is_err());
}

#[test]
fn test_validate_branch_name_starts_with_dot() {
    assert!(validate_branch_name(".hidden").is_err());
}

#[test]
fn test_validate_branch_name_double_dots() {
    assert!(validate_branch_name("has..dots").is_err());
}

#[test]
fn test_validate_branch_name_trailing_slash() {
    assert!(validate_branch_name("trailing/").is_err());
}

#[test]
fn test_validate_branch_name_trailing_dot() {
    assert!(validate_branch_name("trailing.").is_err());
}

#[test]
fn test_validate_branch_name_double_slash() {
    assert!(validate_branch_name("feature//bug").is_err());
}

#[test]
fn test_validate_branch_name_spaces() {
    assert!(validate_branch_name("has spaces").is_err());
}

#[test]
fn test_validate_branch_name_null_byte() {
    assert!(validate_branch_name("null\0byte").is_err());
}

#[test]
fn test_validate_branch_name_newline() {
    assert!(validate_branch_name("new\nline").is_err());
}

#[test]
fn test_validate_branch_name_git_revision_chars() {
    assert!(validate_branch_name("branch~1").is_err());
    assert!(validate_branch_name("branch^2").is_err());
    assert!(validate_branch_name("branch:ref").is_err());
}

#[test]
fn test_validate_branch_name_wildcards() {
    assert!(validate_branch_name("branch*").is_err());
    assert!(validate_branch_name("branch?").is_err());
    assert!(validate_branch_name("branch[0]").is_err());
}

#[test]
fn test_validate_branch_name_too_long() {
    let long_name = "a".repeat(256);
    assert!(validate_branch_name(&long_name).is_err());
}

// Pattern validation tests
#[test]
fn test_validate_pattern_valid() {
    assert!(validate_pattern("feat").is_ok());
    assert!(validate_pattern("feature/").is_ok());
    assert!(validate_pattern("").is_ok()); // Empty is ok (matches all)
    assert!(validate_pattern("123").is_ok());
}

#[test]
fn test_validate_pattern_null_byte() {
    assert!(validate_pattern("null\0byte").is_err());
}

#[test]
fn test_validate_pattern_too_long() {
    let long_pattern = "a".repeat(256);
    assert!(validate_pattern(&long_pattern).is_err());
}

// Alias name validation tests
#[test]
fn test_validate_alias_name_valid() {
    assert!(validate_alias_name("m").is_ok());
    assert!(validate_alias_name("main").is_ok());
    assert!(validate_alias_name("my-alias").is_ok());
    assert!(validate_alias_name("my_alias").is_ok());
    assert!(validate_alias_name("alias123").is_ok());
}

#[test]
fn test_validate_alias_name_empty() {
    assert!(validate_alias_name("").is_err());
}

#[test]
fn test_validate_alias_name_starts_with_dash() {
    assert!(validate_alias_name("-bad").is_err());
}

#[test]
fn test_validate_alias_name_reserved() {
    assert!(validate_alias_name("stats").is_err());
    assert!(validate_alias_name("alias").is_err());
    assert!(validate_alias_name("list").is_err());
    assert!(validate_alias_name("remove").is_err());
}

#[test]
fn test_validate_alias_name_special_chars() {
    assert!(validate_alias_name("has spaces").is_err());
    assert!(validate_alias_name("has/slash").is_err());
    assert!(validate_alias_name("has.dot").is_err());
    assert!(validate_alias_name("has@at").is_err());
}

#[test]
fn test_validate_alias_name_too_long() {
    let long_alias = "a".repeat(51);
    assert!(validate_alias_name(&long_alias).is_err());
}

// Repo path validation tests
#[test]
fn test_validate_repo_path_empty() {
    assert!(validate_repo_path("").is_err());
}

#[test]
fn test_validate_repo_path_null_byte() {
    assert!(validate_repo_path("/path/with\0null").is_err());
}

#[test]
fn test_validate_repo_path_relative() {
    assert!(validate_repo_path("relative/path").is_err());
    assert!(validate_repo_path("./relative").is_err());
}

#[test]
fn test_validate_repo_path_nonexistent() {
    assert!(validate_repo_path("/this/path/definitely/does/not/exist/12345").is_err());
}

#[test]
fn test_validate_repo_path_too_long() {
    let long_path = format!("/{}", "a".repeat(4097));
    assert!(validate_repo_path(&long_path).is_err());
}
