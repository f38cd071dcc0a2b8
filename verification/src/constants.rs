//! Numeric constants shared by the scorer, the selector, the validators and the store.

use vstd::prelude::*;

verus! {

/// Seconds in one minute.
pub const MINUTE_SECONDS: i64 = 60;

/// Seconds in one hour.
pub const HOUR_SECONDS: i64 = 3600;

/// Seconds in one day.
pub const DAY_SECONDS: i64 = 86400;

/// Seconds in one week.
pub const WEEK_SECONDS: i64 = 604800;

/// Seconds in one month of thirty days.
pub const MONTH_SECONDS: i64 = 2592000;

/// What one whole point of score is worth in the fixed-point unit in which
/// scores are kept: scores count millionths.
pub const SCORE_SCALE: i64 = 1000000;

/// Time after which the recency weight of a usage record has halved, in seconds.
pub const HALF_LIFE_SECONDS: i64 = 604800;

/// Weight of the frecency score, against the fuzzy score, in a combined score.
pub const FRECENCY_MULTIPLIER: i64 = 10;

/// Least ratio of the best score to the second best at which the best
/// candidate is taken without asking, in hundredths.
pub const AUTO_SELECT_THRESHOLD: u32 = 200;

/// Longest branch name accepted, in bytes.
pub const MAX_BRANCH_NAME_LENGTH: usize = 255;

/// Longest search pattern accepted, in bytes.
pub const MAX_PATTERN_LENGTH: usize = 255;

/// Longest alias name accepted, in bytes.
pub const MAX_ALIAS_LENGTH: usize = 50;

/// Longest repository path accepted, in bytes.
pub const MAX_REPO_PATH_LENGTH: usize = 4096;

/// Version that a fully migrated store has reached.
pub const SCHEMA_VERSION: i32 = 2;

} // verus!
