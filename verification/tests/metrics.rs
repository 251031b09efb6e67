use claude_router::metrics::{Metrics, SuccessRate};

fn avg_latency(metrics: &Metrics) -> f64 {
    match metrics.avg_latency_parts() {
        Some((total, count)) => total as f64 / count as f64,
        None => 0.0,
    }
}

fn success_rate(metrics: &Metrics) -> f64 {
    match metrics.success_rate_parts() {
        SuccessRate::Disabled => 0.0,
        SuccessRate::NoRequests => 1.0,
        SuccessRate::Ratio { successes, total } => successes as f64 / total as f64,
    }
}

#[test]
fn test_metrics_collection() {
    let mut metrics = Metrics::new();
    metrics.record_request(100, 50, "openrouter", "test-model");
    assert_eq!(metrics.get_request_count(), 1);
    assert_eq!(avg_latency(&metrics), 100.0);
}

#[test]
fn test_error_recording() {
    let mut metrics = Metrics::new();
    metrics.record_error("openrouter", "test-model");
    assert_eq!(metrics.get_error_count(), 1);
}

#[test]
fn test_success_rate() {
    let mut metrics = Metrics::new();
    metrics.record_request(100, 50, "openrouter", "test-model");
    metrics.record_error("openrouter", "test-model");
    assert_eq!(metrics.get_request_count(), 2);
    assert_eq!(metrics.get_error_count(), 1);
    assert_eq!(success_rate(&metrics), 0.5); // 50% success rate
}

#[test]
fn test_disabled_metrics() {
    let mut config = Metrics::default_config();
    config.enabled = false;
    let mut metrics = Metrics::with_config(config);

    metrics.record_request(100, 50, "openrouter", "test-model");
    assert_eq!(metrics.get_request_count(), 0);
    assert_eq!(avg_latency(&metrics), 0.0);
}

#[test]
fn test_model_stats() {
    let mut metrics = Metrics::new();
    metrics.record_request(100, 50, "openrouter", "test-model");

    let model_stats = metrics.get_model_stats();
    assert!(model_stats.contains_key("test-model"));

    if let Some(stats) = model_stats.get("test-model") {
        assert_eq!(stats.request_count, 1);
        assert_eq!(stats.total_tokens, 50);
    }
}

#[test]
fn test_provider_stats() {
    let mut metrics = Metrics::new();
    metrics.record_request(100, 50, "openrouter", "test-model");
    metrics.record_request(200, 100, "openrouter", "test-model");

    let provider_stats = metrics.get_provider_stats();
    assert!(provider_stats.contains_key("openrouter"));

    if let Some(stats) = provider_stats.get("openrouter") {
        assert_eq!(stats.request_count, 2);
        assert_eq!(stats.total_tokens, 150);
        assert_eq!(stats.avg_response_time_ms, 150); // (100 + 200) / 2
        assert_eq!(stats.min_response_time_ms, 100);
        assert_eq!(stats.max_response_time_ms, 200);
        let rate = (stats.request_count as f64 - stats.error_count as f64)
            / stats.request_count as f64;
        assert_eq!(rate, 1.0); // 100% success rate
    }
}

#[test]
fn running_average_rounds_down_and_stays_between_bounds() {
    let mut metrics = Metrics::new();
    for latency in [10, 11, 11] {
        metrics.record_request(latency, 1, "p", "m");
    }
    let stats = *metrics.get_provider_stats().get("p").unwrap();
    // (10) -> (10*1 + 11) / 2 = 10 -> (10*2 + 11) / 3 = 10
    assert_eq!(stats.avg_response_time_ms, 10);
    assert!(stats.min_response_time_ms <= stats.avg_response_time_ms);
    assert!(stats.avg_response_time_ms <= stats.max_response_time_ms);
    assert_eq!(metrics.get_model_stats().get("m").unwrap().avg_response_time_ms, 10);
}

#[test]
fn errors_before_requests_leave_latency_figures_fresh() {
    let mut metrics = Metrics::new();
    metrics.record_error("p", "m");
    let stats = *metrics.get_provider_stats().get("p").unwrap();
    assert_eq!(stats.request_count, 0);
    assert_eq!(stats.error_count, 1);
    assert_eq!(stats.min_response_time_ms, u64::MAX);
    assert_eq!(stats.max_response_time_ms, 0);
    assert_eq!(metrics.get_model_stats().get("m").unwrap().error_count, 1);
    assert_eq!(metrics.success_rate_parts(), SuccessRate::Ratio { successes: 0, total: 1 });
}

#[test]
fn token_usage_reset_and_toggle() {
    let mut metrics = Metrics::new();
    assert_eq!(metrics.success_rate_parts(), SuccessRate::NoRequests);
    assert_eq!(metrics.avg_latency_parts(), None);
    metrics.record_token_usage("m", 5);
    metrics.record_token_usage("m", 7);
    metrics.record_token_usage("m", u64::MAX);
    assert_eq!(metrics.get_token_usage().get("m"), Some(&11));
    metrics.record_request(30, 1, "p", "m");
    metrics.reset_metrics();
    assert_eq!(metrics.get_request_count(), 0);
    assert_eq!(metrics.get_error_count(), 0);
    assert_eq!(metrics.avg_latency_parts(), None);
    assert!(metrics.get_provider_stats().contains_key("p"));

    metrics.set_enabled(false);
    assert!(!metrics.is_enabled());
    assert_eq!(metrics.success_rate_parts(), SuccessRate::Disabled);
    assert_eq!(metrics.get_token_usage().len(), 0);
    assert_eq!(metrics.get_provider_stats().len(), 0);
    metrics.record_error("p", "m");
    metrics.set_enabled(true);
    assert_eq!(metrics.get_error_count(), 0);
}

#[test]
fn overflow_checks() {
    let mut metrics = Metrics::new();
    assert!(metrics.fits_request(1, 1, "p", "m"));
    assert!(metrics.fits_request(1, u64::MAX, "p", "m"));
    metrics.record_request(1, u64::MAX, "p", "m");
    assert!(!metrics.fits_request(1, 1, "p", "m"));
    assert!(metrics.fits_request(1, 0, "p", "m"));
    assert!(metrics.fits_error("p", "m"));
    let mut config = Metrics::default_config();
    config.enabled = false;
    let off = Metrics::with_config(config);
    assert!(off.fits_request(u64::MAX, u64::MAX, "p", "m"));
}
