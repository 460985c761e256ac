use omni::audit::{syslog_message, syslog_priority, AuditConfig, AuditEntry, LogPlan, SecurityEvent, SecuritySeverity};

#[test]
fn test_audit_entry_creation() {
    let event = SecurityEvent::PackageInstall {
        package: "test-package".to_string(),
        box_type: "apt".to_string(),
        user: "testuser".to_string(),
    };
    let entry = AuditEntry::new(event, Some("user123".to_string()));
    assert_eq!(entry.user_id, Some("user123".to_string()));
    assert_eq!(entry.id.len(), 36);
    assert!(matches!(entry.severity, SecuritySeverity::Low));
}

#[test]
fn test_security_severity_ordering() {
    let mut config = AuditConfig::default();
    config.log_level = SecuritySeverity::Medium;
    assert!(!config.should_log_severity(SecuritySeverity::Low));
    assert!(config.should_log_severity(SecuritySeverity::Medium));
    assert!(config.should_log_severity(SecuritySeverity::High));
    assert!(config.should_log_severity(SecuritySeverity::Critical));
}

#[test]
fn event_descriptions() {
    let e = SecurityEvent::NetworkConnection { destination: "example.com".to_string(), port: 443, user: "bob".to_string() };
    assert_eq!(e.describe(), "Network connection to example.com:443 by bob");
    assert_eq!(e.kind(), "network_connection");
    let s = SecurityEvent::SshConnection { host: "h".to_string(), user: "u".to_string(), success: false };
    assert_eq!(s.describe(), "SSH connection to h by u (failed)");
    let m = SecurityEvent::MaliciousActivity { description: "scan".to_string(), ip: None, indicators: vec![] };
    assert_eq!(m.severity(), SecuritySeverity::Critical);
}

#[test]
fn severity_words_round_trip() {
    for s in [SecuritySeverity::Low, SecuritySeverity::Medium, SecuritySeverity::High, SecuritySeverity::Critical] {
        assert_eq!(SecuritySeverity::from_word(s.as_word()), s);
    }
    assert_eq!(SecuritySeverity::from_word("bogus"), SecuritySeverity::Low);
}

#[test]
fn metadata_replaces_values() {
    let event = SecurityEvent::PackageSearch { query: "vim".to_string(), user: "u".to_string() };
    let entry = AuditEntry::recorded(event, None, "id".to_string(), 5)
        .with_metadata("k".to_string(), "1".to_string())
        .with_metadata("k".to_string(), "2".to_string())
        .with_metadata("j".to_string(), "3".to_string());
    assert_eq!(entry.metadata, vec![("k".to_string(), "2".to_string()), ("j".to_string(), "3".to_string())]);
}

#[test]
fn daily_limit() {
    let config = AuditConfig::default();
    assert!(config.under_daily_limit(9_999));
    assert!(!config.under_daily_limit(10_000));
}

#[test]
fn log_plans_follow_the_configuration() {
    let mut c = AuditConfig::default();
    let p = c.log_plan(SecuritySeverity::High, 0).unwrap();
    assert_eq!(p, LogPlan { database: c.database_logging, file: c.file_logging, syslog: c.syslog_logging, alert: c.real_time_alerts });
    assert!(!c.log_plan(SecuritySeverity::Low, 0).unwrap().alert);
    c.max_entries_per_day = Some(5);
    assert!(c.log_plan(SecuritySeverity::Low, 5).is_none());
    assert!(c.log_plan(SecuritySeverity::Low, 4).is_some());
    c.log_level = SecuritySeverity::High;
    assert!(c.log_plan(SecuritySeverity::Medium, 0).is_none());
    c.enabled = false;
    assert!(c.log_plan(SecuritySeverity::Critical, 0).is_none());
}

#[test]
fn syslog_lines() {
    let event = SecurityEvent::PackageSearch { query: "vim".to_string(), user: "u".to_string() };
    let entry = AuditEntry::recorded(event, Some("alice".to_string()), "id".to_string(), 0);
    let line = syslog_message(42, &entry, "{}");
    assert!(line.starts_with("omni[42]: low - Event: "));
    assert!(line.ends_with(" User: alice IP: unknown Details: {}"));
    assert_eq!(syslog_priority(SecuritySeverity::Critical), "crit");
    assert_eq!(syslog_priority(SecuritySeverity::Medium), "warning");
}
