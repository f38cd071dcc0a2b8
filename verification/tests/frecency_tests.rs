use ggo::frecency::{
    format_relative_time, rank_branches, scored_branch, sort_branches_by_frecency, ScoredBranch,
};
use ggo::storage::BranchRecord;
use std::time::{SystemTime, UNIX_EPOCH};

/// The frecency score of a usage record as seen at `now`, in millionths: the
/// number of checkouts, halved for every week of age.
fn score_at(record: &BranchRecord, now: i64) -> i64 {
    let age = (now - record.last_used) as f64;
    let lambda = 2.0_f64.ln() / 604800.0;
    let score = record.switch_count as f64 * (-lambda * age).exp();
    (score * 1_000_000.0).round() as i64
}

/// The usage records with their scores as seen at `now`.
fn scored_at(records: &[BranchRecord], now: i64) -> Vec<ScoredBranch> {
    records.iter().map(|record| scored_branch(record, score_at(record, now))).collect()
}

/// A fixed-point score, which counts millionths, in whole points.
fn points(score: i64) -> f64 {
    score as f64 / 1_000_000.0
}







#[test]
fn test_rank_branches_empty() {
    let now: i64 = 1_700_000_000;
    let records: Vec<BranchRecord> = vec![];
    let ranked = rank_branches(&scored_at(&records, now));
    assert!(ranked.is_empty());
}

#[test]
fn test_rank_branches_single() {
    let now = SystemTime::now()
        .duration_since(UNIX_EPOCH)
        .unwrap()
        .as_secs() as i64;

    let records = vec![BranchRecord {
        repo_path: "/test".to_string(),
        branch_name: "main".to_string(),
        switch_count: 5,
        last_used: now - 60,
    }];

    let ranked = rank_branches(&scored_at(&records, now));
    assert_eq!(ranked.len(), 1);
    assert_eq!(ranked[0].name, "main");
    // Score should be ~5.0 (5 switches * ~1.0 weight for very recent)
    assert!(points(ranked[0].score) > 4.9 && points(ranked[0].score) < 5.1);
    assert_eq!(ranked[0].switch_count, 5);
}

#[test]
fn test_rank_branches_sorted_by_score() {
    let now = SystemTime::now()
        .duration_since(UNIX_EPOCH)
        .unwrap()
        .as_secs() as i64;

    let records = vec![
        BranchRecord {
            repo_path: "/test".to_string(),
            branch_name: "old".to_string(),
            switch_count: 10,
            last_used: now - 3000000, // ~35 days: weight ≈ 0.03
        },
        BranchRecord {
            repo_path: "/test".to_string(),
            branch_name: "recent".to_string(),
            switch_count: 5,
            last_used: now - 60, // Recent: weight ≈ 1.0
        },
        BranchRecord {
            repo_path: "/test".to_string(),
            branch_name: "medium".to_string(),
            switch_count: 3,
            last_used: now - 43200, // 12 hours: weight ≈ 0.99
        },
    ];

    let ranked = rank_branches(&scored_at(&records, now));
    assert_eq!(ranked.len(), 3);
    // Should be sorted by score (highest first)
    assert_eq!(ranked[0].name, "recent");
    assert!(points(ranked[0].score) > 4.9); // ~5.0
    assert_eq!(ranked[1].name, "medium");
    assert!(points(ranked[1].score) > 2.8 && points(ranked[1].score) < 2.9); // ~2.86
    assert_eq!(ranked[2].name, "old");
    assert!(points(ranked[2].score) > 0.3 && points(ranked[2].score) < 0.35); // ~0.31
}

#[test]
fn test_sort_branches_by_frecency_empty_branches() {
    let now: i64 = 1_700_000_000;
    let branches: Vec<String> = vec![];
    let records: Vec<BranchRecord> = vec![];
    let sorted = sort_branches_by_frecency(&branches, &scored_at(&records, now));
    assert!(sorted.is_empty());
}

#[test]
fn test_sort_branches_by_frecency_no_records() {
    let now: i64 = 1_700_000_000;
    let branches = vec![
        "main".to_string(),
        "develop".to_string(),
        "feature".to_string(),
    ];
    let records: Vec<BranchRecord> = vec![];

    let sorted = sort_branches_by_frecency(&branches, &scored_at(&records, now));
    assert_eq!(sorted.len(), 3);

    // All should have score 0.0
    for (_, score) in &sorted {
        assert_eq!(points(*score), 0.0);
    }
}

#[test]
fn test_sort_branches_by_frecency_with_records() {
    let now = SystemTime::now()
        .duration_since(UNIX_EPOCH)
        .unwrap()
        .as_secs() as i64;

    let branches = vec![
        "main".to_string(),
        "develop".to_string(),
        "feature".to_string(),
    ];

    let records = vec![
        BranchRecord {
            repo_path: "/test".to_string(),
            branch_name: "develop".to_string(),
            switch_count: 10,
            last_used: now - 60, // weight ≈ 1.0, score ≈ 10.0
        },
        BranchRecord {
            repo_path: "/test".to_string(),
            branch_name: "main".to_string(),
            switch_count: 5,
            last_used: now - 43200, // 12h: weight ≈ 0.99, score ≈ 5.0
        },
    ];

    let sorted = sort_branches_by_frecency(&branches, &scored_at(&records, now));
    assert_eq!(sorted.len(), 3);
    assert_eq!(sorted[0].0, "develop");
    assert!(points(sorted[0].1) > 9.9 && points(sorted[0].1) < 10.1);
    assert_eq!(sorted[1].0, "main");
    assert!(points(sorted[1].1) > 4.7 && points(sorted[1].1) < 4.8);
    assert_eq!(sorted[2].0, "feature");
    assert_eq!(points(sorted[2].1), 0.0);
}

#[test]
fn test_sort_branches_by_frecency_partial_records() {
    let now = SystemTime::now()
        .duration_since(UNIX_EPOCH)
        .unwrap()
        .as_secs() as i64;

    let branches = vec![
        "branch-a".to_string(),
        "branch-b".to_string(),
        "branch-c".to_string(),
    ];

    let records = vec![BranchRecord {
        repo_path: "/test".to_string(),
        branch_name: "branch-b".to_string(),
        switch_count: 3,
        last_used: now - 60,
    }];

    let sorted = sort_branches_by_frecency(&branches, &scored_at(&records, now));
    assert_eq!(sorted[0].0, "branch-b");
    assert!(points(sorted[0].1) > 0.0);
    assert_eq!(points(sorted[1].1), 0.0);
    assert_eq!(points(sorted[2].1), 0.0);
}

#[test]
fn test_format_relative_time_just_now() {
    let now = SystemTime::now()
        .duration_since(UNIX_EPOCH)
        .unwrap()
        .as_secs() as i64;

    assert_eq!(format_relative_time(now, now), "just now");
    assert_eq!(format_relative_time(now - 30, now), "just now");
    assert_eq!(format_relative_time(now - 59, now), "just now");
}

#[test]
fn test_format_relative_time_minutes() {
    let now = SystemTime::now()
        .duration_since(UNIX_EPOCH)
        .unwrap()
        .as_secs() as i64;

    assert_eq!(format_relative_time(now - 60, now), "1m ago");
    assert_eq!(format_relative_time(now - 120, now), "2m ago");
    assert_eq!(format_relative_time(now - 1800, now), "30m ago");
    assert_eq!(format_relative_time(now - 3599, now), "59m ago");
}

#[test]
fn test_format_relative_time_hours() {
    let now = SystemTime::now()
        .duration_since(UNIX_EPOCH)
        .unwrap()
        .as_secs() as i64;

    assert_eq!(format_relative_time(now - 3600, now), "1h ago");
    assert_eq!(format_relative_time(now - 7200, now), "2h ago");
    assert_eq!(format_relative_time(now - 43200, now), "12h ago");
    assert_eq!(format_relative_time(now - 86399, now), "23h ago");
}

#[test]
fn test_format_relative_time_days() {
    let now = SystemTime::now()
        .duration_since(UNIX_EPOCH)
        .unwrap()
        .as_secs() as i64;

    assert_eq!(format_relative_time(now - 86400, now), "1d ago");
    assert_eq!(format_relative_time(now - 172800, now), "2d ago");
    assert_eq!(format_relative_time(now - 432000, now), "5d ago");
    assert_eq!(format_relative_time(now - 604799, now), "6d ago");
}

#[test]
fn test_format_relative_time_weeks() {
    let now = SystemTime::now()
        .duration_since(UNIX_EPOCH)
        .unwrap()
        .as_secs() as i64;

    assert_eq!(format_relative_time(now - 604800, now), "1w ago");
    assert_eq!(format_relative_time(now - 1209600, now), "2w ago");
    assert_eq!(format_relative_time(now - 2591999, now), "4w ago");
}

#[test]
fn test_format_relative_time_months() {
    let now = SystemTime::now()
        .duration_since(UNIX_EPOCH)
        .unwrap()
        .as_secs() as i64;

    assert_eq!(format_relative_time(now - 2592000, now), "1mo ago");
    assert_eq!(format_relative_time(now - 5184000, now), "2mo ago");
    assert_eq!(format_relative_time(now - 7776000, now), "3mo ago");
    assert_eq!(format_relative_time(now - 31536000, now), "12mo ago");
}

#[test]
fn test_format_relative_time_boundary_conditions() {
    let now = SystemTime::now()
        .duration_since(UNIX_EPOCH)
        .unwrap()
        .as_secs() as i64;

    // Exact boundaries
    assert_eq!(format_relative_time(now, now), "just now");
    assert_eq!(format_relative_time(now - 3600, now), "1h ago");
    assert_eq!(format_relative_time(now - 86400, now), "1d ago");
    assert_eq!(format_relative_time(now - 604800, now), "1w ago");
    assert_eq!(format_relative_time(now - 2592000, now), "1mo ago");
}
