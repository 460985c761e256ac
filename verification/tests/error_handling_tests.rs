use omni::error_handling::{CircuitBreaker, ErrorCategory, ErrorSeverity, OmniError};
use std::time::Duration;

#[test]
fn test_omni_error_retryable() {
    assert!(OmniError::NetworkError { message: "timeout".to_string(), url: None }.is_retryable());

    assert!(!OmniError::ValidationError { field: "package".to_string(), message: "invalid".to_string() }
        .is_retryable());
}

#[test]
fn test_error_severity() {
    let security_error = OmniError::SecurityViolation { message: "untrusted package".to_string() };
    assert_eq!(security_error.severity(), ErrorSeverity::Critical);

    let network_error = OmniError::NetworkError { message: "timeout".to_string(), url: None };
    assert_eq!(network_error.severity(), ErrorSeverity::Medium);
}

#[test]
fn test_circuit_breaker_creation() {
    let _cb = CircuitBreaker::new(3, Duration::from_secs(30));
}

#[test]
fn circuit_breaker_opens_after_threshold() {
    let mut cb = CircuitBreaker::new(2, Duration::from_secs(30));
    assert!(!cb.is_open_at(0));
    cb.on_failure_at(10);
    assert!(!cb.is_open_at(20));
    cb.on_failure_at(30);
    assert!(cb.is_open_at(40));
    cb.on_success();
    assert!(cb.is_open_at(50));
    assert!(!cb.is_open_at(30_030));
    cb.on_success();
    assert!(!cb.is_open_at(30_040));
}

#[test]
fn error_codes_and_categories() {
    let e = OmniError::PackageNotFound { package: "vim".to_string() };
    assert_eq!(e.category(), ErrorCategory::Package);
    assert!(!e.is_retryable());
    assert!(!e.error_code().is_empty());
}

#[test]
fn error_messages_name_their_fields() {
    let e = OmniError::PackageNotFound { package: "vim".to_string() };
    assert_eq!(e.message(), "Package not found: vim");
    let e = OmniError::InstallationFailed { package: "vim".to_string(), box_type: "apt".to_string(), reason: "boom".to_string() };
    assert_eq!(e.message(), "Installation failed: vim via apt: boom");
    let e = OmniError::TimeoutError { operation: "install".to_string(), duration: std::time::Duration::from_secs(30) };
    assert_eq!(e.message(), "Timeout occurred: install after 30s");
}

#[test]
fn error_context_records_data_and_recovery() {
    use_context();
}

fn use_context() {
    let mut c = omni::error_handling::ErrorContext::new(OmniError::PackageNotFound { package: "vim".to_string() }, "install".to_string());
    assert_eq!(c.error_id.len(), 36);
    assert!(!c.resolved);
    c.add_context("box".to_string(), "apt".to_string());
    c.add_context("box".to_string(), "dnf".to_string());
    c.add_context("user".to_string(), "me".to_string());
    assert_eq!(c.context_data, vec![("box".to_string(), "dnf".to_string()), ("user".to_string(), "me".to_string())]);
    c.add_recovery_attempt(omni::error_handling::RecoveryStrategy::Retry, false, "first".to_string());
    assert!(!c.resolved);
    c.add_recovery_attempt(omni::error_handling::RecoveryStrategy::Fallback, true, "second".to_string());
    assert!(c.resolved);
    assert_eq!(c.recovery_attempts.len(), 2);
    assert_eq!(c.recovery_attempts[1].details, "second");
    c.increment_retry();
    c.increment_retry();
    assert_eq!(c.retry_count, 2);
}

#[test]
fn error_metrics_count_recorded_errors() {
    let mut m = omni::error_monitor::ErrorMetrics::started_now();
    m.record_error(&OmniError::PackageNotFound { package: "vim".to_string() });
    m.record_error(&OmniError::PackageNotFound { package: "git".to_string() });
    assert_eq!(m.total_errors, 2);
    assert_eq!(m.by_code, vec![("OMNI_PKG_001".to_string(), 2)]);
}
