use ggo::matcher::{filter_branches, fuzzy_filter_branches, ScoredMatch};


#[test]
fn test_matches_case_sensitive() {
    assert!(ggo::matcher::matches("feature/auth", "feat", false));
    assert!(ggo::matcher::matches("feature/auth", "auth", false));
    assert!(!ggo::matcher::matches("feature/auth", "FEAT", false));
}

#[test]
fn test_matches_case_insensitive() {
    assert!(ggo::matcher::matches("feature/auth", "FEAT", true));
    assert!(ggo::matcher::matches("FEATURE/AUTH", "feat", true));
    assert!(ggo::matcher::matches("Feature/Auth", "feature", true));
}

#[test]
fn test_matches_empty_pattern() {
    assert!(ggo::matcher::matches("feature/auth", "", false));
    assert!(ggo::matcher::matches("main", "", true));
    assert!(ggo::matcher::matches("", "", false));
}

#[test]
fn test_matches_empty_branch() {
    assert!(!ggo::matcher::matches("", "test", false));
    assert!(!ggo::matcher::matches("", "TEST", true));
}

#[test]
fn test_matches_exact_match() {
    assert!(ggo::matcher::matches("main", "main", false));
    assert!(ggo::matcher::matches("MAIN", "MAIN", false));
    assert!(ggo::matcher::matches("main", "MAIN", true));
}

#[test]
fn test_matches_partial() {
    assert!(ggo::matcher::matches("feature/auth-module", "auth", false));
    assert!(ggo::matcher::matches("prefix-middle-suffix", "middle", false));
    assert!(ggo::matcher::matches("start-of-branch", "start", false));
    assert!(ggo::matcher::matches("end-of-branch", "branch", false));
}

#[test]
fn test_matches_special_characters() {
    assert!(ggo::matcher::matches("feature/auth-v2", "auth-v2", false));
    assert!(ggo::matcher::matches("bugfix/issue-#123", "#123", false));
    assert!(ggo::matcher::matches("release/v1.0.0", "v1.0", false));
}

#[test]
fn test_matches_unicode() {
    assert!(ggo::matcher::matches("feature/日本語", "日本", false));
    assert!(ggo::matcher::matches("branch-🚀-rocket", "🚀", false));
    assert!(ggo::matcher::matches("café-feature", "café", false));
}

#[test]
fn test_filter_branches() {
    let branches = vec![
        "main".to_string(),
        "feature/auth".to_string(),
        "feature/dashboard".to_string(),
        "bugfix/login".to_string(),
    ];

    let matches = filter_branches(&branches, "feature", false);
    assert_eq!(matches.len(), 2);
    assert_eq!(*matches[0], "feature/auth");
    assert_eq!(*matches[1], "feature/dashboard");
}

#[test]
fn test_filter_branches_no_matches() {
    let branches = vec!["main".to_string(), "develop".to_string()];

    let matches = filter_branches(&branches, "feature", false);
    assert_eq!(matches.len(), 0);
}

#[test]
fn test_filter_branches_empty_pattern() {
    let branches = vec![
        "main".to_string(),
        "develop".to_string(),
        "feature".to_string(),
    ];

    let matches = filter_branches(&branches, "", false);
    assert_eq!(matches.len(), 3);
}

#[test]
fn test_filter_branches_empty_list() {
    let branches: Vec<String> = vec![];
    let matches = filter_branches(&branches, "feature", false);
    assert_eq!(matches.len(), 0);
}

#[test]
fn test_filter_branches_case_sensitive() {
    let branches = vec![
        "Feature/Auth".to_string(),
        "feature/auth".to_string(),
        "FEATURE/AUTH".to_string(),
    ];

    let matches = filter_branches(&branches, "feature", false);
    assert_eq!(matches.len(), 1);
    assert_eq!(*matches[0], "feature/auth");
}

#[test]
fn test_filter_branches_case_insensitive() {
    let branches = vec![
        "Feature/Auth".to_string(),
        "feature/auth".to_string(),
        "FEATURE/AUTH".to_string(),
    ];

    let matches = filter_branches(&branches, "feature", true);
    assert_eq!(matches.len(), 3);
}

#[test]
fn test_fuzzy_filter_branches() {
    let branches = vec![
        "main".to_string(),
        "expo-feature-branch".to_string(),
        "feature/dashboard".to_string(),
        "bugfix/login".to_string(),
    ];

    let matches = fuzzy_filter_branches(&branches, "exo", false);

    // Should match "expo-feature-branch" with fuzzy matching
    assert!(!matches.is_empty());
    assert_eq!(matches[0].branch, "expo-feature-branch");
}

#[test]
fn test_fuzzy_filter_scores_ordering() {
    let branches = vec![
        "feat".to_string(),
        "feature".to_string(),
        "features/something".to_string(),
        "test/feat".to_string(),
    ];

    let matches = fuzzy_filter_branches(&branches, "feat", false);

    // Should have matches and they should be ordered
    assert!(!matches.is_empty());
    // Best matches should contain "feat"
    assert!(matches[0].branch.contains("feat"));
}

#[test]
fn test_fuzzy_filter_empty_pattern() {
    let branches = vec!["main".to_string(), "feature".to_string()];

    let matches = fuzzy_filter_branches(&branches, "", false);
    assert_eq!(matches.len(), 2);
    assert_eq!(matches[0].score, 0);
    assert_eq!(matches[1].score, 0);
}

#[test]
fn test_fuzzy_filter_empty_branches() {
    let branches: Vec<String> = vec![];
    let matches = fuzzy_filter_branches(&branches, "test", false);
    assert_eq!(matches.len(), 0);
}

#[test]
fn test_fuzzy_filter_no_matches() {
    let branches = vec!["main".to_string(), "develop".to_string()];

    let matches = fuzzy_filter_branches(&branches, "xyz", false);
    assert_eq!(matches.len(), 0);
}

#[test]
fn test_fuzzy_filter_case_insensitive() {
    let branches = vec![
        "Feature/Auth".to_string(),
        "MAIN".to_string(),
        "develop".to_string(),
    ];

    let matches = fuzzy_filter_branches(&branches, "AUTH", true);
    assert!(!matches.is_empty());
    assert_eq!(matches[0].branch, "Feature/Auth");
}

#[test]
fn test_fuzzy_filter_case_sensitive() {
    let branches = vec!["Feature/Auth".to_string(), "feature/auth".to_string()];

    let matches_lower = fuzzy_filter_branches(&branches, "auth", false);
    assert!(!matches_lower.is_empty());

    // Both branches should match regardless of case in pattern
    let matches_upper = fuzzy_filter_branches(&branches, "auth", true);
    assert!(!matches_upper.is_empty());

    // Should find branches with auth
    assert!(matches_lower
        .iter()
        .any(|m| m.branch.contains("auth") || m.branch.contains("Auth")));
}

#[test]
fn test_fuzzy_filter_complex_pattern() {
    let branches = vec![
        "feature/authentication".to_string(),
        "feat/auth".to_string(),
        "fix/authorization".to_string(),
    ];

    let matches = fuzzy_filter_branches(&branches, "fauth", false);
    assert!(!matches.is_empty());
    // Should match branches containing f and auth
    assert!(matches.iter().any(|m| m.branch.contains("auth")));
}

#[test]
fn test_fuzzy_filter_ordering_by_score() {
    let branches = vec![
        "test-feature-branch".to_string(),
        "test".to_string(),
        "testing".to_string(),
    ];

    let matches = fuzzy_filter_branches(&branches, "test", false);
    assert!(!matches.is_empty());

    // Should have matches ordered by score
    assert!(matches[0].score >= matches[1].score);
    assert!(matches[1].score >= matches[2].score);
}

#[test]
fn test_scored_match_clone() {
    let original = ScoredMatch {
        branch: "test".to_string(),
        score: 100,
    };
    let cloned = original.clone();
    assert_eq!(original.branch, cloned.branch);
    assert_eq!(original.score, cloned.score);
}

#[test]
fn test_scored_match_debug() {
    let scored = ScoredMatch {
        branch: "test".to_string(),
        score: 100,
    };
    let debug_str = format!("{:?}", scored);
    assert!(debug_str.contains("test"));
    assert!(debug_str.contains("100"));
}
