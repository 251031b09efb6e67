use claude_router::errors::{
    AuthenticationError, ConfigError, ErrorType, NetworkError, ProviderError, RouterError,
};

#[test]
fn test_router_error_creation() {
    let error = RouterError::new(ErrorType::InternalError, "Test error");
    assert_eq!(error.message, "Test error");
}

#[test]
fn test_error_display() {
    let error = RouterError::new(ErrorType::InternalError, "Test error");
    let display = error.to_string();
    assert!(display.contains("InternalError"));
    assert!(display.contains("Test error"));
}

#[test]
fn test_router_error_with_details() {
    let error = RouterError::with_details(
        ErrorType::ConfigurationError,
        "Config error",
        "Missing required field",
    );
    assert_eq!(error.message, "Config error");
    assert_eq!(error.details, Some("Missing required field".to_string()));
}

#[test]
fn test_error_status_codes() {
    let error = RouterError::new(ErrorType::AuthenticationError, "Auth failed");
    assert_eq!(error.status_code(), 401);

    let error = RouterError::new(ErrorType::RateLimitError, "Rate limited");
    assert_eq!(error.status_code(), 429);
}

#[test]
fn test_error_context() {
    let error = RouterError::new(ErrorType::InternalError, "Test error")
        .context("Additional context");
    assert!(error.details.is_some());
}

#[test]
fn test_config_error() {
    let error = ConfigError::new("Invalid config");
    assert_eq!(error.message, "Invalid config");

    let error_with_source = ConfigError::with_source(
        "Invalid config",
        std::io::Error::new(std::io::ErrorKind::Other, "IO error"),
    );
    assert!(error_with_source.source.is_some());
}

#[test]
fn test_provider_error() {
    let error = ProviderError::new("openrouter", "API error");
    assert_eq!(error.provider, "openrouter");
    assert_eq!(error.message, "API error");

    let error_with_source = ProviderError::with_source(
        "openrouter",
        "API error",
        std::io::Error::new(std::io::ErrorKind::Other, "IO error"),
    );
    assert!(error_with_source.source.is_some());
}

#[test]
fn every_error_type_has_its_status() {
    let expected = [
        (ErrorType::ConfigurationError, 400),
        (ErrorType::ProviderError, 502),
        (ErrorType::ValidationError, 400),
        (ErrorType::NetworkError, 502),
        (ErrorType::TranslationError, 400),
        (ErrorType::StreamingError, 400),
        (ErrorType::InternalError, 500),
        (ErrorType::AuthenticationError, 401),
        (ErrorType::RateLimitError, 429),
        (ErrorType::TimeoutError, 408),
        (ErrorType::InvalidRequestError, 400),
        (ErrorType::ModelNotFoundError, 404),
        (ErrorType::ToolExecutionError, 400),
    ];
    for (t, code) in expected {
        assert_eq!(RouterError::new(t, "x").status_code(), code);
    }
}

#[test]
fn display_forms() {
    let e = RouterError::with_details(ErrorType::TimeoutError, "slow", "after 30s");
    assert_eq!(e.to_string(), "TimeoutError: slow (after 30s)");
    let e = RouterError::new(ErrorType::ModelNotFoundError, "gone");
    assert_eq!(e.to_string(), "ModelNotFoundError: gone");

    assert_eq!(ConfigError::new("bad").to_string(), "Configuration error: bad");
    let e = ConfigError::with_source("bad", "disk");
    assert_eq!(e.to_string(), "Configuration error: bad (source: disk)");
    let e = ProviderError::with_source("openrouter", "API error", "timeout");
    assert_eq!(e.to_string(), "Provider 'openrouter' error: API error (source: timeout)");
    assert_eq!(NetworkError::new("down").to_string(), "Network error: down");
    let e = NetworkError::with_source("down", "refused");
    assert_eq!(e.to_string(), "Network error: down (source: refused)");
    assert_eq!(AuthenticationError::new("no key").to_string(), "Authentication error: no key");
    let e = AuthenticationError::with_source("no key", "env");
    assert_eq!(e.to_string(), "Authentication error: no key (source: env)");
}

#[test]
fn context_leads_existing_details() {
    let e = RouterError::with_details(ErrorType::InternalError, "m", "inner")
        .context("outer");
    assert_eq!(e.details, Some("outer: inner".to_string()));
    let e = RouterError::new(ErrorType::InternalError, "m").context("only");
    assert_eq!(e.details, Some("only".to_string()));
}

#[test]
fn caused_by_follows_existing_details() {
    let e = RouterError::with_details(ErrorType::NetworkError, "m", "first").caused_by("io failed");
    assert_eq!(e.details, Some("first: io failed".to_string()));
    let e = RouterError::new(ErrorType::NetworkError, "m").caused_by("io failed");
    assert_eq!(e.details, Some("io failed".to_string()));
    let e = RouterError::with_source(ErrorType::ProviderError, "m", "upstream");
    assert_eq!(e.details, Some("upstream".to_string()));
    assert_eq!(e.status_code(), 502);
}
