use data_pipeline::config::RateLimitConfig;
use data_pipeline::rate_limit::{limits_enabled, sink_quota, source_quota, NoOpRateLimiter, RateLimitStats};

#[test]
fn test_noop_rate_limiter() {
    let limiter = NoOpRateLimiter::new();

    // No-op limiter should always allow operations
    assert!(limiter.can_proceed_source());
    assert!(limiter.can_proceed_sink());

    limiter.wait_for_source_permit().unwrap();
    limiter.wait_for_sink_permit().unwrap();
}

#[test]
fn quotas_fall_back_to_defaults_when_zero() {
    let c = RateLimitConfig { max_source_tps: 10, max_sink_tps: 5, max_concurrent_connections: 1 };
    assert_eq!(source_quota(&c), 10);
    assert_eq!(sink_quota(&c), 5);
    let z = RateLimitConfig { max_source_tps: 0, max_sink_tps: 0, max_concurrent_connections: 1 };
    assert_eq!(source_quota(&z), 10_000);
    assert_eq!(sink_quota(&z), 5_000);
}

#[test]
fn limits_apply_where_a_maximum_is_set() {
    let z = RateLimitConfig { max_source_tps: 0, max_sink_tps: 0, max_concurrent_connections: 1 };
    assert!(!limits_enabled(&z));
    let s = RateLimitConfig { max_source_tps: 0, max_sink_tps: 7, max_concurrent_connections: 1 };
    assert!(limits_enabled(&s));
    assert!(limits_enabled(&RateLimitConfig::default()));
}

#[test]
fn default_rate_limits() {
    let d = RateLimitConfig::default();
    assert_eq!(d.max_source_tps, 10_000);
    assert_eq!(d.max_sink_tps, 5_000);
    assert_eq!(d.max_concurrent_connections, 10);
}

#[test]
fn stats_report_configuration_and_permits() {
    let c = RateLimitConfig { max_source_tps: 2, max_sink_tps: 3, max_concurrent_connections: 1 };
    let s = RateLimitStats::new(&c, 1, 0);
    assert_eq!((s.max_source_tps, s.max_sink_tps, s.source_available, s.sink_available), (2, 3, 1, 0));
}
