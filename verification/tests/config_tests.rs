//! Configuration defaults and validation rules.

use lspmux::config::{
    gc_interval, instance_timeout, log_filters, parse_gc_interval, parse_instance_timeout,
    timeout_from_config, ConfigError, InstanceTimeout, RawTimeout,
};

#[test]
fn default_instance_timeout_is_five_minutes() {
    assert!(matches!(instance_timeout(), Some(300)));
}

#[test]
fn default_gc_interval_is_ten_seconds() {
    assert_eq!(gc_interval(), 10);
}

#[test]
fn default_log_filters_is_info() {
    assert_eq!(log_filters(), "info");
}

#[test]
fn timeout_number_is_seconds() {
    assert!(matches!(parse_instance_timeout(&RawTimeout::Count(42)), Ok(Some(42))));
}

#[test]
fn timeout_false_disables() {
    assert!(matches!(parse_instance_timeout(&RawTimeout::Flag(false)), Ok(None)));
}

#[test]
fn timeout_true_is_rejected() {
    assert!(matches!(
        parse_instance_timeout(&RawTimeout::Flag(true)),
        Err(ConfigError::TimeoutTrue)
    ));
}

#[test]
fn gc_interval_zero_is_rejected() {
    assert!(matches!(parse_gc_interval(0), Err(ConfigError::IntervalZero)));
}

#[test]
fn gc_interval_positive_is_kept() {
    assert!(matches!(parse_gc_interval(7), Ok(7)));
}

#[test]
fn tagged_timeout_from_config_values() {
    assert!(matches!(timeout_from_config(None), InstanceTimeout::Disabled));
    assert!(matches!(timeout_from_config(Some(5)), InstanceTimeout::After(5)));
}
