use ggo::frecency::{scored_branch, ScoredBranch};
use ggo::matcher::ScoredMatch;
use ggo::selector::{combine_fuzzy_and_frecency_scores, should_auto_select};
use ggo::storage::BranchRecord;

/// The frecency score of a usage record as seen at `now`, in millionths: the
/// number of checkouts, halved for every week of age.
fn score_at(record: &BranchRecord, now: i64) -> i64 {
    let age = (now - record.last_used) as f64;
    let lambda = 2.0_f64.ln() / 604800.0;
    let score = record.switch_count as f64 * (-lambda * age).exp();
    (score * 1_000_000.0).round() as i64
}

/// The usage records with their scores as seen at `now`.
fn scored_at(records: &[BranchRecord], now: i64) -> Vec<ScoredBranch> {
    records.iter().map(|record| scored_branch(record, score_at(record, now))).collect()
}

/// A fixed-point score, which counts millionths, in whole points.
fn points(score: i64) -> f64 {
    score as f64 / 1_000_000.0
}

/// A score in whole points as a fixed-point score.
fn micros(points: f64) -> i64 {
    (points * 1_000_000.0).round() as i64
}
#[test]
fn test_combine_fuzzy_and_frecency_scores_empty() {
    let now: i64 = 1_700_000_000;
    let fuzzy_matches: Vec<ScoredMatch> = vec![];
    let records: Vec<BranchRecord> = vec![];

    let result = combine_fuzzy_and_frecency_scores(&fuzzy_matches, &scored_at(&records, now));
    assert_eq!(result.len(), 0);
}

#[test]
fn test_combine_fuzzy_and_frecency_scores_no_records() {
    let now: i64 = 1_700_000_000;
    let fuzzy_matches = vec![
        ScoredMatch {
            branch: "feature/auth".to_string(),
            score: 100,
        },
        ScoredMatch {
            branch: "feature/dashboard".to_string(),
            score: 80,
        },
    ];
    let records: Vec<BranchRecord> = vec![];

    let result = combine_fuzzy_and_frecency_scores(&fuzzy_matches, &scored_at(&records, now));

    assert_eq!(result.len(), 2);
    // Without frecency, should sort by fuzzy score only
    assert_eq!(result[0].0, "feature/auth");
    assert_eq!(points(result[0].1), 100.0);
    assert_eq!(result[1].0, "feature/dashboard");
    assert_eq!(points(result[1].1), 80.0);
}

#[test]
fn test_combine_fuzzy_and_frecency_scores_with_records() {
    let now = std::time::SystemTime::now()
        .duration_since(std::time::UNIX_EPOCH)
        .unwrap()
        .as_secs() as i64;

    let fuzzy_matches = vec![
        ScoredMatch {
            branch: "feature/auth".to_string(),
            score: 80,
        },
        ScoredMatch {
            branch: "feature/dashboard".to_string(),
            score: 100,
        },
    ];

    let records = vec![BranchRecord {
        repo_path: "/test".to_string(),
        branch_name: "feature/auth".to_string(),
        switch_count: 10,
        last_used: now - 60, // Recent: frecency score ≈ 10.0 (10 * ~1.0)
    }];

    let result = combine_fuzzy_and_frecency_scores(&fuzzy_matches, &scored_at(&records, now));

    assert_eq!(result.len(), 2);
    // feature/auth should rank higher due to frecency
    // auth: 80 + (10.0 * 10) = 180
    // dashboard: 100 + (0 * 10) = 100
    assert_eq!(result[0].0, "feature/auth");
    assert!(points(result[0].1) > 179.0 && points(result[0].1) < 181.0);
    assert_eq!(result[1].0, "feature/dashboard");
    assert_eq!(points(result[1].1), 100.0);
}

#[test]
fn test_combine_fuzzy_and_frecency_scores_balanced() {
    let now = std::time::SystemTime::now()
        .duration_since(std::time::UNIX_EPOCH)
        .unwrap()
        .as_secs() as i64;

    let fuzzy_matches = vec![
        ScoredMatch {
            branch: "branch-a".to_string(),
            score: 100,
        },
        ScoredMatch {
            branch: "branch-b".to_string(),
            score: 50,
        },
    ];

    let records = vec![
        BranchRecord {
            repo_path: "/test".to_string(),
            branch_name: "branch-a".to_string(),
            switch_count: 1,
            last_used: now - 3000000, // Old: frecency ≈ 0.03 (1 * 0.03)
        },
        BranchRecord {
            repo_path: "/test".to_string(),
            branch_name: "branch-b".to_string(),
            switch_count: 5,
            last_used: now - 60, // Recent: frecency ≈ 5.0 (5 * 1.0)
        },
    ];

    let result = combine_fuzzy_and_frecency_scores(&fuzzy_matches, &scored_at(&records, now));

    assert_eq!(result.len(), 2);
    // branch-a: 100 + (0.03 * 10) ≈ 100.3
    // branch-b: 50 + (5.0 * 10) = 100.0
    // branch-a wins slightly (better fuzzy match despite lower frecency)
    assert_eq!(result[0].0, "branch-a");
    assert_eq!(result[1].0, "branch-b");
}

#[test]
fn test_combine_fuzzy_and_frecency_scores_high_frecency() {
    let now = std::time::SystemTime::now()
        .duration_since(std::time::UNIX_EPOCH)
        .unwrap()
        .as_secs() as i64;

    let fuzzy_matches = vec![
        ScoredMatch {
            branch: "new-branch".to_string(),
            score: 100,
        },
        ScoredMatch {
            branch: "popular-branch".to_string(),
            score: 60,
        },
    ];

    let records = vec![BranchRecord {
        repo_path: "/test".to_string(),
        branch_name: "popular-branch".to_string(),
        switch_count: 20,
        last_used: now - 60, // Recent: frecency ≈ 20.0 (20 * ~1.0)
    }];

    let result = combine_fuzzy_and_frecency_scores(&fuzzy_matches, &scored_at(&records, now));

    assert_eq!(result.len(), 2);
    // popular-branch: 60 + (20.0 * 10) = 260.0
    // new-branch: 100 + (0 * 10) = 100.0
    assert_eq!(result[0].0, "popular-branch");
    assert!(points(result[0].1) > 259.0 && points(result[0].1) < 261.0);
}

#[test]
fn test_combine_fuzzy_and_frecency_scores_single_match() {
    let now: i64 = 1_700_000_000;
    let fuzzy_matches = vec![ScoredMatch {
        branch: "only-match".to_string(),
        score: 75,
    }];
    let records: Vec<BranchRecord> = vec![];

    let result = combine_fuzzy_and_frecency_scores(&fuzzy_matches, &scored_at(&records, now));

    assert_eq!(result.len(), 1);
    assert_eq!(result[0].0, "only-match");
    assert_eq!(points(result[0].1), 75.0);
}

#[test]
fn test_combine_fuzzy_and_frecency_scores_all_same_fuzzy() {
    let now = std::time::SystemTime::now()
        .duration_since(std::time::UNIX_EPOCH)
        .unwrap()
        .as_secs() as i64;

    let fuzzy_matches = vec![
        ScoredMatch {
            branch: "branch-a".to_string(),
            score: 100,
        },
        ScoredMatch {
            branch: "branch-b".to_string(),
            score: 100,
        },
    ];

    let records = vec![BranchRecord {
        repo_path: "/test".to_string(),
        branch_name: "branch-b".to_string(),
        switch_count: 5,
        last_used: now - 60, // Recent
    }];

    let result = combine_fuzzy_and_frecency_scores(&fuzzy_matches, &scored_at(&records, now));

    // branch-b should rank higher due to frecency
    assert_eq!(result[0].0, "branch-b");
    assert!(points(result[0].1) > points(result[1].1));
}

#[test]
fn test_combine_fuzzy_and_frecency_scores_partial_overlap() {
    let now = std::time::SystemTime::now()
        .duration_since(std::time::UNIX_EPOCH)
        .unwrap()
        .as_secs() as i64;

    let fuzzy_matches = vec![
        ScoredMatch {
            branch: "branch-a".to_string(),
            score: 90,
        },
        ScoredMatch {
            branch: "branch-b".to_string(),
            score: 85,
        },
        ScoredMatch {
            branch: "branch-c".to_string(),
            score: 80,
        },
    ];

    let records = vec![BranchRecord {
        repo_path: "/test".to_string(),
        branch_name: "branch-b".to_string(),
        switch_count: 3,
        last_used: now - 60,
    }];

    let result = combine_fuzzy_and_frecency_scores(&fuzzy_matches, &scored_at(&records, now));

    assert_eq!(result.len(), 3);
    // branch-b should be first due to frecency boost
    assert_eq!(result[0].0, "branch-b");
}

#[test]
fn test_combine_fuzzy_and_frecency_scores_zero_fuzzy_score() {
    let now: i64 = 1_700_000_000;
    let fuzzy_matches = vec![ScoredMatch {
        branch: "branch-a".to_string(),
        score: 0,
    }];
    let records: Vec<BranchRecord> = vec![];
    let result = combine_fuzzy_and_frecency_scores(&fuzzy_matches, &scored_at(&records, now));

    assert_eq!(result.len(), 1);
    assert_eq!(points(result[0].1), 0.0);
}

#[test]
fn test_combine_fuzzy_and_frecency_ordering_consistency() {
    let now = std::time::SystemTime::now()
        .duration_since(std::time::UNIX_EPOCH)
        .unwrap()
        .as_secs() as i64;

    let fuzzy_matches = vec![
        ScoredMatch {
            branch: "high-fuzzy-low-frecency".to_string(),
            score: 100,
        },
        ScoredMatch {
            branch: "low-fuzzy-high-frecency".to_string(),
            score: 20,
        },
    ];

    let records = vec![BranchRecord {
        repo_path: "/test".to_string(),
        branch_name: "low-fuzzy-high-frecency".to_string(),
        switch_count: 50,
        last_used: now - 60, // Recent, high frecency
    }];

    let result = combine_fuzzy_and_frecency_scores(&fuzzy_matches, &scored_at(&records, now));

    // Low fuzzy but high frecency should win
    assert_eq!(result[0].0, "low-fuzzy-high-frecency");
    assert!(points(result[0].1) > points(result[1].1));
}

#[test]
fn test_should_auto_select_clear_winner() {
    // Test that 2x score ratio triggers auto-select
    let top_score = 400.0;
    let second_score = 150.0;

    let should_auto_select = should_auto_select(micros(top_score), micros(second_score), 200);
    assert!(should_auto_select);
}

#[test]
fn test_should_not_auto_select_close_scores() {
    // Test that close scores (< 2x) trigger interactive menu
    let top_score = 250.0;
    let second_score = 200.0;

    let should_auto_select = should_auto_select(micros(top_score), micros(second_score), 200);
    assert!(!should_auto_select);
}

#[test]
fn test_should_auto_select_exact_2x() {
    // Test boundary condition: exactly 2x should auto-select
    let top_score = 200.0;
    let second_score = 100.0;

    let should_auto_select = should_auto_select(micros(top_score), micros(second_score), 200);
    assert!(should_auto_select);
}

#[test]
fn test_should_auto_select_zero_second_score() {
    // Test edge case: second score is 0, should always auto-select
    let second_score = 0.0;

    let should_auto_select = should_auto_select(micros(123.0), micros(second_score), 200);
    assert!(should_auto_select);
}

#[test]
fn test_should_not_auto_select_near_2x() {
    // Test just under 2x threshold
    let top_score = 199.0;
    let second_score = 100.0;

    let should_auto_select = should_auto_select(micros(top_score), micros(second_score), 200);
    assert!(!should_auto_select);
}

#[test]
fn test_high_ratio_auto_selects() {
    // Test very clear winner (5x)
    let top_score = 500.0;
    let second_score = 100.0;

    let should_auto_select = should_auto_select(micros(top_score), micros(second_score), 200);
    assert!(should_auto_select);
}
