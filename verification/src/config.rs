//! Settings of the scorer and the selector, in whole numbers.

use vstd::prelude::*;
use crate::constants::{AUTO_SELECT_THRESHOLD, HALF_LIFE_SECONDS};

verus! {

/// How ranking and selection behave.
#[derive(Debug, Clone, Copy, PartialEq, Eq, Structural)]
pub struct Config {
    pub frecency: FrecencyConfig,
    pub behavior: BehaviorConfig,
}

/// Settings of the frecency score.
#[derive(Debug, Clone, Copy, PartialEq, Eq, Structural)]
pub struct FrecencyConfig {
    /// Time after which the recency weight of a usage record has halved, in
    /// seconds.
    pub half_life_seconds: i64,
}

/// Settings of matching and selection.
#[derive(Debug, Clone, Copy, PartialEq, Eq, Structural)]
pub struct BehaviorConfig {
    /// Least ratio of the best score to the second best at which the best
    /// candidate is taken without asking, in hundredths.
    pub auto_select_threshold: u32,
    /// Whether fuzzy matching is used where nothing else is said.
    pub default_fuzzy: bool,
    /// Whether case is ignored where nothing else is said.
    pub default_ignore_case: bool,
}

/// Whether fuzzy matching is used where nothing else is said: it is.
pub fn default_fuzzy() -> (fuzzy: bool)
    ensures
        fuzzy,
{
    true
}

impl Config {
    /// Whether the settings can be used: the half-life is a positive time.
    pub open spec fn is_valid(&self) -> bool {
        self.frecency.half_life_seconds > 0
    }

    /// Whether the settings can be used.
    pub fn check(&self) -> (valid: bool)
        ensures
            valid == self.is_valid(),
    {
        self.frecency.half_life_seconds > 0
    }
}

impl Default for FrecencyConfig {
    fn default() -> (config: Self)
        ensures
            config.half_life_seconds == HALF_LIFE_SECONDS,
    {
        FrecencyConfig { half_life_seconds: HALF_LIFE_SECONDS }
    }
}

impl Default for BehaviorConfig {
    fn default() -> (config: Self)
        ensures
            config.auto_select_threshold == AUTO_SELECT_THRESHOLD,
            config.default_fuzzy,
            !config.default_ignore_case,
    {
        BehaviorConfig {
            auto_select_threshold: AUTO_SELECT_THRESHOLD,
            default_fuzzy: default_fuzzy(),
            default_ignore_case: false,
        }
    }
}

impl Default for Config {
    fn default() -> (config: Self)
        ensures
            config.frecency.half_life_seconds == HALF_LIFE_SECONDS,
            config.behavior.auto_select_threshold == AUTO_SELECT_THRESHOLD,
            config.behavior.default_fuzzy,
            !config.behavior.default_ignore_case,
            config.is_valid(),
    {
        Config { frecency: FrecencyConfig::default(), behavior: BehaviorConfig::default() }
    }
}

} // verus!
