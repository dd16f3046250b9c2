use sysmon::cli::{normalize_refresh_rate, CommandLineArgs, DEFAULT_REFRESH_RATE_MS,
    MIN_REFRESH_RATE_MS};

#[test]
fn too_fast_refresh_is_raised_to_minimum() {
    assert_eq!(normalize_refresh_rate(0), MIN_REFRESH_RATE_MS);
    assert_eq!(normalize_refresh_rate(100), 500);
    assert_eq!(normalize_refresh_rate(499), 500);
}

#[test]
fn acceptable_refresh_is_kept() {
    assert_eq!(normalize_refresh_rate(500), 500);
    assert_eq!(normalize_refresh_rate(1000), 1000);
    assert_eq!(normalize_refresh_rate(60000), 60000);
}

#[test]
fn arguments_carry_mode_and_normalized_rate() {
    let args = CommandLineArgs::new(100, true);
    assert_eq!(args.refresh_rate, MIN_REFRESH_RATE_MS);
    assert!(args.show_graphs);
    let args = CommandLineArgs::new(DEFAULT_REFRESH_RATE_MS, false);
    assert_eq!(args.refresh_rate, 1000);
    assert!(!args.show_graphs);
}
