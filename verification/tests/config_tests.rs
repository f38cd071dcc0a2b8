use ggo::config::{default_fuzzy, BehaviorConfig, Config, FrecencyConfig};

#[test]
fn test_default_config_values() {
    let config = Config::default();

    assert_eq!(config.frecency.half_life_seconds as f64 / 86400.0, 7.0);
    assert_eq!(config.behavior.auto_select_threshold as f64 / 100.0, 2.0);
    assert!(config.behavior.default_fuzzy);
    assert!(!config.behavior.default_ignore_case);
}

#[test]
fn defaults_of_the_parts_agree_with_the_whole() {
    let config = Config::default();
    assert_eq!(config.frecency, FrecencyConfig::default());
    assert_eq!(config.behavior, BehaviorConfig::default());
    assert_eq!(config.frecency.half_life_seconds, 604_800);
    assert_eq!(config.behavior.auto_select_threshold, 200);
    assert!(default_fuzzy());
    assert!(config.check());
    let mut broken = config;
    broken.frecency.half_life_seconds = 0;
    assert!(!broken.check());
}
