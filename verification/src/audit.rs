//! Security auditing: the events recorded, how severe each is, which are
//! kept, and how they read.
use vstd::prelude::*;
use crate::docker::new_uuid_text;
use crate::keyed::{keys_unique, value_of, lemma_push_new, lemma_update_value, lemma_absent, key_in};
use crate::text::{append_str, concat2, concat3, concat4, concat5, concat6, concat7, concat8, decimal, decimal_text, owned, text_eq};

verus! {

/// How severe a security event is.
#[derive(Debug, Clone, Copy, PartialEq, Eq, Structural)]
pub enum SecuritySeverity {
    Low,
    Medium,
    High,
    Critical,
}

/// The rank of a severity, from 0 (low) to 3 (critical).
pub open spec fn rank(s: SecuritySeverity) -> int {
    match s {
        SecuritySeverity::Low => 0,
        SecuritySeverity::Medium => 1,
        SecuritySeverity::High => 2,
        SecuritySeverity::Critical => 3,
    }
}

/// Whether an event of severity `s` is logged at the level `level`.
pub open spec fn logged_at(level: SecuritySeverity, s: SecuritySeverity) -> bool {
    match (level, s) {
        (SecuritySeverity::Low, _) => true,
        (SecuritySeverity::Medium, SecuritySeverity::Low) => false,
        (SecuritySeverity::Medium, _) => true,
        (SecuritySeverity::High, SecuritySeverity::Low) => false,
        (SecuritySeverity::High, SecuritySeverity::Medium) => false,
        (SecuritySeverity::High, _) => true,
        (SecuritySeverity::Critical, SecuritySeverity::Critical) => true,
        (SecuritySeverity::Critical, _) => false,
    }
}

/// An event is logged exactly when it is at least as severe as the level.
pub proof fn law_logged_iff_at_least_level(level: SecuritySeverity, s: SecuritySeverity)
    ensures
        logged_at(level, s) <==> rank(s) >= rank(level),
{
}

/// The word under which a severity is stored.
pub open spec fn severity_word(s: SecuritySeverity) -> Seq<char> {
    match s {
        SecuritySeverity::Low => "low"@,
        SecuritySeverity::Medium => "medium"@,
        SecuritySeverity::High => "high"@,
        SecuritySeverity::Critical => "critical"@,
    }
}

/// The severity a stored word stands for; an unknown word reads as low.
pub open spec fn severity_of_word(w: Seq<char>) -> SecuritySeverity {
    if w == "low"@ {
        SecuritySeverity::Low
    } else if w == "medium"@ {
        SecuritySeverity::Medium
    } else if w == "high"@ {
        SecuritySeverity::High
    } else if w == "critical"@ {
        SecuritySeverity::Critical
    } else {
        SecuritySeverity::Low
    }
}

/// Reading back the word under which a severity was stored gives it back.
pub proof fn law_severity_word_round_trip(s: SecuritySeverity)
    ensures
        severity_of_word(severity_word(s)) == s,
{
    reveal_strlit("low");
    reveal_strlit("medium");
    reveal_strlit("high");
    reveal_strlit("critical");
    assert("low"@[0] == 'l' && "medium"@[0] == 'm' && "high"@[0] == 'h' && "critical"@[0] == 'c');
    assert("low"@ != "medium"@ && "low"@ != "high"@ && "low"@ != "critical"@);
    assert("medium"@ != "high"@ && "medium"@ != "critical"@ && "high"@ != "critical"@);
}

impl SecuritySeverity {
    /// The word under which the severity is stored.
    pub fn as_word(&self) -> (r: &'static str)
        ensures
            r@ == severity_word(*self),
    {
        match self {
            SecuritySeverity::Low => "low",
            SecuritySeverity::Medium => "medium",
            SecuritySeverity::High => "high",
            SecuritySeverity::Critical => "critical",
        }
    }

    /// The severity a stored word stands for.
    pub fn from_word(w: &str) -> (r: SecuritySeverity)
        ensures
            r == severity_of_word(w@),
    {
        if text_eq(w, "low") {
            SecuritySeverity::Low
        } else if text_eq(w, "medium") {
            SecuritySeverity::Medium
        } else if text_eq(w, "high") {
            SecuritySeverity::High
        } else if text_eq(w, "critical") {
            SecuritySeverity::Critical
        } else {
            SecuritySeverity::Low
        }
    }

    /// High and critical events are the severe ones.
    pub fn is_high(&self) -> (r: bool)
        ensures
            r == (rank(*self) >= 2),
    {
        match self {
            SecuritySeverity::High | SecuritySeverity::Critical => true,
            _ => false,
        }
    }
}

/// A security event. Addresses are kept in their text form.
#[derive(Debug, Clone)]
pub enum SecurityEvent {
    LoginAttempt { success: bool, user: String, ip: Option<String> },
    LoginFailure { user: String, ip: Option<String>, reason: String },
    PrivilegeEscalation { user: String, command: String },
    PackageInstall { package: String, box_type: String, user: String },
    PackageRemove { package: String, box_type: String, user: String },
    PackageUpdate { package: String, box_type: String, user: String },
    PackageSearch { query: String, user: String },
    SystemAccess { user: String, ip: Option<String>, method: String },
    FileAccess { path: String, operation: String, user: String },
    NetworkConnection { destination: String, port: u16, user: String },
    ConfigurationChange { setting: String, old_value: String, new_value: String, user: String },
    SecurityViolation { description: String, user: String, severity: SecuritySeverity },
    MaliciousActivity { description: String, ip: Option<String>, indicators: Vec<String> },
    SuspiciousCommand { command: String, user: String, reason: String },
    SshConnection { host: String, user: String, success: bool },
    RemoteCommand { host: String, command: String, user: String, success: bool },
    ContainerCreated { image: String, container_id: String, user: String },
    ContainerStarted { container_id: String, user: String },
    ContainerStopped { container_id: String, user: String },
    ContainerDeleted { container_id: String, user: String },
}

/// `success` or `failed`.
pub open spec fn outcome_word(success: bool) -> Seq<char> {
    if success {
        "success"@
    } else {
        "failed"@
    }
}

/// How an event reads in a log.
pub open spec fn event_text(e: SecurityEvent) -> Seq<char> {
    match e {
        SecurityEvent::LoginAttempt { success, user, .. } => "Login attempt by "@ + user@ + " ("@ + outcome_word(success) + ")"@,
        SecurityEvent::LoginFailure { user, reason, .. } => "Login failure for "@ + user@ + ": "@ + reason@,
        SecurityEvent::PrivilegeEscalation { user, command } => "Privilege escalation by "@ + user@ + " for command: "@ + command@,
        SecurityEvent::PackageInstall { package, box_type, user } => "Package install: "@ + package@ + " via "@ + box_type@ + " by "@ + user@,
        SecurityEvent::PackageRemove { package, box_type, user } => "Package remove: "@ + package@ + " via "@ + box_type@ + " by "@ + user@,
        SecurityEvent::PackageUpdate { package, box_type, user } => "Package update: "@ + package@ + " via "@ + box_type@ + " by "@ + user@,
        SecurityEvent::PackageSearch { query, user } => "Package search: '"@ + query@ + "' by "@ + user@,
        SecurityEvent::SystemAccess { user, method, .. } => "System access by "@ + user@ + " via "@ + method@,
        SecurityEvent::FileAccess { path, operation, user } => "File access: "@ + operation@ + " "@ + path@ + " by "@ + user@,
        SecurityEvent::NetworkConnection { destination, port, user } => "Network connection to "@ + destination@ + ":"@ + decimal(port as nat) + " by "@ + user@,
        SecurityEvent::ConfigurationChange { setting, user, .. } => "Configuration change: "@ + setting@ + " by "@ + user@,
        SecurityEvent::SecurityViolation { description, user, .. } => "Security violation: "@ + description@ + " by "@ + user@,
        SecurityEvent::MaliciousActivity { description, .. } => "Malicious activity detected: "@ + description@,
        SecurityEvent::SuspiciousCommand { command, user, reason } => "Suspicious command: "@ + command@ + " by "@ + user@ + " ("@ + reason@ + ")"@,
        SecurityEvent::SshConnection { host, user, success } => "SSH connection to "@ + host@ + " by "@ + user@ + " ("@ + outcome_word(success) + ")"@,
        SecurityEvent::RemoteCommand { host, command, user, success } => "Remote command on "@ + host@ + ": "@ + command@ + " by "@ + user@ + " ("@ + outcome_word(success) + ")"@,
        SecurityEvent::ContainerCreated { image, user, .. } => "Container created from "@ + image@ + " by "@ + user@,
        SecurityEvent::ContainerStarted { container_id, user } => "Container "@ + container_id@ + " started by "@ + user@,
        SecurityEvent::ContainerStopped { container_id, user } => "Container "@ + container_id@ + " stopped by "@ + user@,
        SecurityEvent::ContainerDeleted { container_id, user } => "Container "@ + container_id@ + " deleted by "@ + user@,
    }
}

/// The word under which the kind of an event is stored.
pub open spec fn event_kind(e: SecurityEvent) -> Seq<char> {
    match e {
        SecurityEvent::LoginAttempt { .. } => "login_attempt"@,
        SecurityEvent::LoginFailure { .. } => "login_failure"@,
        SecurityEvent::PrivilegeEscalation { .. } => "privilege_escalation"@,
        SecurityEvent::PackageInstall { .. } => "package_install"@,
        SecurityEvent::PackageRemove { .. } => "package_remove"@,
        SecurityEvent::PackageUpdate { .. } => "package_update"@,
        SecurityEvent::PackageSearch { .. } => "package_search"@,
        SecurityEvent::SystemAccess { .. } => "system_access"@,
        SecurityEvent::FileAccess { .. } => "file_access"@,
        SecurityEvent::NetworkConnection { .. } => "network_connection"@,
        SecurityEvent::ConfigurationChange { .. } => "configuration_change"@,
        SecurityEvent::SecurityViolation { .. } => "security_violation"@,
        SecurityEvent::MaliciousActivity { .. } => "malicious_activity"@,
        SecurityEvent::SuspiciousCommand { .. } => "suspicious_command"@,
        SecurityEvent::SshConnection { .. } => "ssh_connection"@,
        SecurityEvent::RemoteCommand { .. } => "remote_command"@,
        SecurityEvent::ContainerCreated { .. } => "container_created"@,
        SecurityEvent::ContainerStarted { .. } => "container_started"@,
        SecurityEvent::ContainerStopped { .. } => "container_stopped"@,
        SecurityEvent::ContainerDeleted { .. } => "container_deleted"@,
    }
}

/// The severity an event is recorded with: that of a violation as
/// reported, critical for malicious activity, high for suspicious commands
/// and privilege escalation, medium for failed logins, low otherwise.
pub open spec fn severity_of(e: SecurityEvent) -> SecuritySeverity {
    match e {
        SecurityEvent::SecurityViolation { severity, .. } => severity,
        SecurityEvent::MaliciousActivity { .. } => SecuritySeverity::Critical,
        SecurityEvent::SuspiciousCommand { .. } => SecuritySeverity::High,
        SecurityEvent::LoginFailure { .. } => SecuritySeverity::Medium,
        SecurityEvent::PrivilegeEscalation { .. } => SecuritySeverity::High,
        _ => SecuritySeverity::Low,
    }
}

/// `success` or `failed`.
fn outcome_word_exec(success: bool) -> (r: &'static str)
    ensures
        r@ == outcome_word(success),
{
    if success {
        "success"
    } else {
        "failed"
    }
}

impl SecurityEvent {
    /// How the event reads in a log.
    pub fn describe(&self) -> (r: String)
        ensures
            r@ == event_text(*self),
    {
        match self {
            SecurityEvent::LoginAttempt { success, user, .. } =>
                concat5("Login attempt by ", user.as_str(), " (", outcome_word_exec(*success), ")"),
            SecurityEvent::LoginFailure { user, reason, .. } =>
                concat4("Login failure for ", user.as_str(), ": ", reason.as_str()),
            SecurityEvent::PrivilegeEscalation { user, command } =>
                concat4("Privilege escalation by ", user.as_str(), " for command: ", command.as_str()),
            SecurityEvent::PackageInstall { package, box_type, user } =>
                concat6("Package install: ", package.as_str(), " via ", box_type.as_str(), " by ", user.as_str()),
            SecurityEvent::PackageRemove { package, box_type, user } =>
                concat6("Package remove: ", package.as_str(), " via ", box_type.as_str(), " by ", user.as_str()),
            SecurityEvent::PackageUpdate { package, box_type, user } =>
                concat6("Package update: ", package.as_str(), " via ", box_type.as_str(), " by ", user.as_str()),
            SecurityEvent::PackageSearch { query, user } =>
                concat4("Package search: '", query.as_str(), "' by ", user.as_str()),
            SecurityEvent::SystemAccess { user, method, .. } =>
                concat4("System access by ", user.as_str(), " via ", method.as_str()),
            SecurityEvent::FileAccess { path, operation, user } =>
                concat6("File access: ", operation.as_str(), " ", path.as_str(), " by ", user.as_str()),
            SecurityEvent::NetworkConnection { destination, port, user } => {
                let p = decimal_text(*port as u64);
                concat6("Network connection to ", destination.as_str(), ":", p.as_str(), " by ", user.as_str())
            },
            SecurityEvent::ConfigurationChange { setting, user, .. } =>
                concat4("Configuration change: ", setting.as_str(), " by ", user.as_str()),
            SecurityEvent::SecurityViolation { description, user, .. } =>
                concat4("Security violation: ", description.as_str(), " by ", user.as_str()),
            SecurityEvent::MaliciousActivity { description, .. } =>
                concat2("Malicious activity detected: ", description.as_str()),
            SecurityEvent::SuspiciousCommand { command, user, reason } =>
                concat7("Suspicious command: ", command.as_str(), " by ", user.as_str(), " (", reason.as_str(), ")"),
            SecurityEvent::SshConnection { host, user, success } =>
                concat7("SSH connection to ", host.as_str(), " by ", user.as_str(), " (", outcome_word_exec(*success), ")"),
            SecurityEvent::RemoteCommand { host, command, user, success } =>
{
                let mut t = concat8("Remote command on ", host.as_str(), ": ", command.as_str(), " by ", user.as_str(), " (", outcome_word_exec(*success));
                append_str(&mut t, ")");
                t
            },
            SecurityEvent::ContainerCreated { image, user, .. } =>
                concat4("Container created from ", image.as_str(), " by ", user.as_str()),
            SecurityEvent::ContainerStarted { container_id, user } =>
                concat4("Container ", container_id.as_str(), " started by ", user.as_str()),
            SecurityEvent::ContainerStopped { container_id, user } =>
                concat4("Container ", container_id.as_str(), " stopped by ", user.as_str()),
            SecurityEvent::ContainerDeleted { container_id, user } =>
                concat4("Container ", container_id.as_str(), " deleted by ", user.as_str()),
        }
    }

    /// The word under which the kind of the event is stored.
    pub fn kind(&self) -> (r: &'static str)
        ensures
            r@ == event_kind(*self),
    {
        match self {
            SecurityEvent::LoginAttempt { .. } => "login_attempt",
            SecurityEvent::LoginFailure { .. } => "login_failure",
            SecurityEvent::PrivilegeEscalation { .. } => "privilege_escalation",
            SecurityEvent::PackageInstall { .. } => "package_install",
            SecurityEvent::PackageRemove { .. } => "package_remove",
            SecurityEvent::PackageUpdate { .. } => "package_update",
            SecurityEvent::PackageSearch { .. } => "package_search",
            SecurityEvent::SystemAccess { .. } => "system_access",
            SecurityEvent::FileAccess { .. } => "file_access",
            SecurityEvent::NetworkConnection { .. } => "network_connection",
            SecurityEvent::ConfigurationChange { .. } => "configuration_change",
            SecurityEvent::SecurityViolation { .. } => "security_violation",
            SecurityEvent::MaliciousActivity { .. } => "malicious_activity",
            SecurityEvent::SuspiciousCommand { .. } => "suspicious_command",
            SecurityEvent::SshConnection { .. } => "ssh_connection",
            SecurityEvent::RemoteCommand { .. } => "remote_command",
            SecurityEvent::ContainerCreated { .. } => "container_created",
            SecurityEvent::ContainerStarted { .. } => "container_started",
            SecurityEvent::ContainerStopped { .. } => "container_stopped",
            SecurityEvent::ContainerDeleted { .. } => "container_deleted",
        }
    }

    /// The severity the event is recorded with.
    pub fn severity(&self) -> (r: SecuritySeverity)
        ensures
            r == severity_of(*self),
    {
        match self {
            SecurityEvent::SecurityViolation { severity, .. } => *severity,
            SecurityEvent::MaliciousActivity { .. } => SecuritySeverity::Critical,
            SecurityEvent::SuspiciousCommand { .. } => SecuritySeverity::High,
            SecurityEvent::LoginFailure { .. } => SecuritySeverity::Medium,
            SecurityEvent::PrivilegeEscalation { .. } => SecuritySeverity::High,
            _ => SecuritySeverity::Low,
        }
    }
}

/// How auditing is done.
#[derive(Debug, Clone)]
pub struct AuditConfig {
    pub enabled: bool,
    pub log_level: SecuritySeverity,
    pub retention_days: u32,
    pub real_time_alerts: bool,
    pub alert_webhook: Option<String>,
    pub alert_email: Option<String>,
    pub file_logging: bool,
    pub database_logging: bool,
    pub syslog_logging: bool,
    pub max_entries_per_day: Option<u64>,
}

impl AuditConfig {
    /// Everything logged for three months, to the database and to files,
    /// with alerts, at most ten thousand entries a day.
    pub fn default() -> (r: Self)
        ensures
            r.enabled,
            r.log_level == SecuritySeverity::Low,
            r.retention_days == 90,
            r.real_time_alerts,
            r.alert_webhook is None,
            r.alert_email is None,
            r.file_logging,
            r.database_logging,
            !r.syslog_logging,
            r.max_entries_per_day == Some(10000u64),
    {
        AuditConfig {
            enabled: true,
            log_level: SecuritySeverity::Low,
            retention_days: 90,
            real_time_alerts: true,
            alert_webhook: None,
            alert_email: None,
            file_logging: true,
            database_logging: true,
            syslog_logging: false,
            max_entries_per_day: Some(10000),
        }
    }

    /// Whether an event of severity `s` is logged.
    pub fn should_log_severity(&self, s: SecuritySeverity) -> (r: bool)
        ensures
            r == logged_at(self.log_level, s),
    {
        match (self.log_level, s) {
            (SecuritySeverity::Low, _) => true,
            (SecuritySeverity::Medium, SecuritySeverity::Low) => false,
            (SecuritySeverity::Medium, _) => true,
            (SecuritySeverity::High, SecuritySeverity::Low) => false,
            (SecuritySeverity::High, SecuritySeverity::Medium) => false,
            (SecuritySeverity::High, _) => true,
            (SecuritySeverity::Critical, SecuritySeverity::Critical) => true,
            (SecuritySeverity::Critical, _) => false,
        }
    }

    /// Whether another entry may be logged today, given how many were: the
    /// count must stay below the daily maximum (taken as a signed 64-bit
    /// number, as the store counts), where there is one.
    pub fn under_daily_limit(&self, entries_today: i64) -> (r: bool)
        ensures
            r == match self.max_entries_per_day {
                None => true,
                Some(m) => entries_today < (if m <= i64::MAX { m as int } else { m - 0x1_0000_0000_0000_0000int }),
            },
    {
        match self.max_entries_per_day {
            None => true,
            Some(m) => {
                if m <= i64::MAX as u64 {
                    entries_today < m as i64
                } else {
                    false || (entries_today as i128) < (m as i128) - 0x1_0000_0000_0000_0000i128
                }
            },
        }
    }
}

/// The statistics of the audit log.
#[derive(Debug, Clone)]
pub struct AuditStats {
    pub total_entries: u64,
    pub entries_today: u64,
    pub critical_events: u64,
    pub high_severity_events: u64,
    pub failed_logins: u64,
    pub package_operations: u64,
    pub remote_connections: u64,
    pub most_active_users: Vec<(String, u64)>,
    pub most_common_events: Vec<(String, u64)>,
}

/// A recorded event, with its identifier and time (in seconds since the
/// epoch); its metadata is a list of keys with their values.
#[derive(Debug, Clone)]
pub struct AuditEntry {
    pub id: String,
    pub timestamp: i64,
    pub event: SecurityEvent,
    pub user_id: Option<String>,
    pub session_id: Option<String>,
    pub source_ip: Option<String>,
    pub user_agent: Option<String>,
    pub metadata: Vec<(String, String)>,
    pub severity: SecuritySeverity,
}

/// The metadata of an entry as plain values.
pub open spec fn meta_view(m: Seq<(String, String)>) -> Seq<(Seq<char>, Seq<char>)> {
    m.map_values(|p: (String, String)| (p.0@, p.1@))
}

/// `chrono::Utc::now().timestamp()`: the current time in seconds since the
/// Unix epoch. Nothing is stated of it: it is the time.
#[verifier::external_body]
fn utc_now_seconds() -> (r: i64) {
    chrono::Utc::now().timestamp()
}

impl AuditEntry {
    /// A new entry for `event`, identified by a fresh random identifier (36
    /// characters) and stamped with the current time, with the severity the
    /// event carries and no session, address, agent or metadata.
    pub fn new(event: SecurityEvent, user_id: Option<String>) -> (r: Self)
        ensures
            r.severity == severity_of(event),
            r.event == event,
            r.user_id == user_id,
            r.id@.len() == 36,
            r.session_id is None,
            r.source_ip is None,
            r.user_agent is None,
            r.metadata@.len() == 0,
    {
        let id = new_uuid_text();
        let now = utc_now_seconds();
        Self::recorded(event, user_id, id, now)
    }

    /// An entry for `event` with the identifier and time given, the
    /// severity the event carries and no session, address, agent or
    /// metadata.
    pub fn recorded(event: SecurityEvent, user_id: Option<String>, id: String, timestamp: i64) -> (r: Self)
        ensures
            r.severity == severity_of(event),
            r.event == event,
            r.user_id == user_id,
            r.id == id,
            r.timestamp == timestamp,
            r.session_id is None,
            r.source_ip is None,
            r.user_agent is None,
            r.metadata@.len() == 0,
    {
        let severity = event.severity();
        AuditEntry {
            id,
            timestamp,
            event,
            user_id,
            session_id: None,
            source_ip: None,
            user_agent: None,
            metadata: Vec::new(),
            severity,
        }
    }

    /// The entry with its session.
    pub fn with_session(self, session_id: String) -> (r: Self)
        ensures
            r == (AuditEntry { session_id: Some(session_id), ..self }),
    {
        AuditEntry { session_id: Some(session_id), ..self }
    }

    /// The entry with its source address.
    pub fn with_ip(self, ip: String) -> (r: Self)
        ensures
            r == (AuditEntry { source_ip: Some(ip), ..self }),
    {
        AuditEntry { source_ip: Some(ip), ..self }
    }

    /// The entry with its user agent.
    pub fn with_user_agent(self, user_agent: String) -> (r: Self)
        ensures
            r == (AuditEntry { user_agent: Some(user_agent), ..self }),
    {
        AuditEntry { user_agent: Some(user_agent), ..self }
    }

    /// The entry with `value` under `key` in its metadata, replacing any
    /// value the key had.
    pub fn with_metadata(self, key: String, value: String) -> (r: Self)
        requires
            keys_unique(meta_view(self.metadata@)),
        ensures
            keys_unique(meta_view(r.metadata@)),
            value_of(meta_view(r.metadata@), key@) == Some(value@),
            forall|k: Seq<char>| k != key@ ==> value_of(meta_view(r.metadata@), k) == value_of(meta_view(self.metadata@), k),
            r.event == self.event && r.id == self.id && r.timestamp == self.timestamp && r.severity == self.severity,
    {
        let mut me = self;
        let ghost before = meta_view(me.metadata@);
        let mut i: usize = 0;
        while i < me.metadata.len()
            invariant
                i <= me.metadata@.len(),
                before == meta_view(me.metadata@),
                before == meta_view(self.metadata@),
                keys_unique(before),
                forall|j: int| 0 <= j < i ==> before[j].0 != key@,
                me.event == self.event && me.id == self.id && me.timestamp == self.timestamp && me.severity == self.severity,
            decreases me.metadata.len() - i,
        {
            if text_eq(me.metadata[i].0.as_str(), key.as_str()) {
                let k2 = me.metadata[i].0.clone();
                assert(before[i as int].0 == key@);
                me.metadata.set(i, (k2, value));
                proof {
                    assert(meta_view(me.metadata@) =~= before.update(i as int, (before[i as int].0, value@)));
                    assert forall|k: Seq<char>| true implies #[trigger] value_of(meta_view(me.metadata@), k)
                        == if before[i as int].0 == k { Some(value@) } else { value_of(before, k) } by {
                        lemma_update_value(before, i as int, value@, k);
                    }
                    lemma_update_value(before, i as int, value@, key@);
                }
                return me;
            }
            i = i + 1;
        }
        proof {
            assert forall|j: int| 0 <= j < before.len() implies before[j].0 != key@ by {}
            assert(!key_in(before, key@)) by {
                lemma_absent(before, key@);
            }
        }
        let ghost kv = key@;
        let ghost vv = value@;
        me.metadata.push((key, value));
        proof {
            assert(meta_view(me.metadata@) =~= before.push((kv, vv)));
            assert forall|k: Seq<char>| true implies #[trigger] value_of(meta_view(me.metadata@), k)
                == if kv == k { Some(vv) } else { value_of(before, k) } by {
                lemma_push_new(before, (kv, vv), k);
            }
            lemma_push_new(before, (kv, vv), kv);
        }
        me
    }
}

/// Where an entry goes: to the database, to the log files, to the system
/// log, and whether an alert is sent.
#[derive(Debug, Clone, Copy, PartialEq, Eq, Structural)]
pub struct LogPlan {
    pub database: bool,
    pub file: bool,
    pub syslog: bool,
    pub alert: bool,
}

impl AuditConfig {
    /// Where an entry of severity `s` goes, given how many entries were
    /// logged today: nowhere (`None`) when logging is off, the severity is
    /// below the level logged, or the day's limit is reached; otherwise to
    /// the destinations switched on, with an alert for a high or critical
    /// entry where alerts are on.
    pub fn log_plan(&self, s: SecuritySeverity, entries_today: i64) -> (r: Option<LogPlan>)
        ensures
            match r {
                None => !self.enabled || !logged_at(self.log_level, s) || !match self.max_entries_per_day {
                    None => true,
                    Some(m) => entries_today < (if m <= i64::MAX { m as int } else { m - 0x1_0000_0000_0000_0000int }),
                },
                Some(p) => self.enabled && logged_at(self.log_level, s) && match self.max_entries_per_day {
                    None => true,
                    Some(m) => entries_today < (if m <= i64::MAX { m as int } else { m - 0x1_0000_0000_0000_0000int }),
                } && p == (LogPlan {
                    database: self.database_logging,
                    file: self.file_logging,
                    syslog: self.syslog_logging,
                    alert: self.real_time_alerts && rank(s) >= 2,
                }),
            },
    {
        if !self.enabled || !self.should_log_severity(s) || !self.under_daily_limit(entries_today) {
            return None;
        }
        Some(LogPlan {
            database: self.database_logging,
            file: self.file_logging,
            syslog: self.syslog_logging,
            alert: self.real_time_alerts && s.is_high(),
        })
    }
}

/// The priority under which the system log gets an entry of a severity.
pub fn syslog_priority(s: SecuritySeverity) -> (r: &'static str)
    ensures
        r@ == match s {
            SecuritySeverity::Critical => "crit"@,
            SecuritySeverity::High => "err"@,
            SecuritySeverity::Medium => "warning"@,
            SecuritySeverity::Low => "info"@,
        },
{
    match s {
        SecuritySeverity::Critical => "crit",
        SecuritySeverity::High => "err",
        SecuritySeverity::Medium => "warning",
        SecuritySeverity::Low => "info",
    }
}

/// An optional text, or `unknown`.
pub open spec fn or_unknown(o: Option<String>) -> Seq<char> {
    match o {
        Some(t) => t@,
        None => "unknown"@,
    }
}

/// The line the system log gets for an entry, from the process `pid` (in
/// decimal), with the entry's metadata written as `details`.
pub open spec fn syslog_text(pid: u32, e: AuditEntry, details: Seq<char>) -> Seq<char> {
    "omni["@ + decimal(pid as nat) + "]: "@ + severity_word(e.severity) + " - Event: "@ + event_text(e.event) + " User: "@
        + or_unknown(e.user_id) + " IP: "@ + or_unknown(e.source_ip) + " Details: "@ + details
}

/// The line the system log gets for an entry.
pub fn syslog_message(pid: u32, entry: &AuditEntry, details: &str) -> (r: String)
    ensures
        r@ == syslog_text(pid, *entry, details@),
{
    let p = decimal_text(pid as u64);
    let event = entry.event.describe();
    let user = match &entry.user_id {
        Some(u) => u.clone(),
        None => owned("unknown"),
    };
    let ip = match &entry.source_ip {
        Some(a) => a.clone(),
        None => owned("unknown"),
    };
    let mut r = concat4("omni[", p.as_str(), "]: ", entry.severity.as_word());
    append_str(&mut r, " - Event: ");
    append_str(&mut r, event.as_str());
    append_str(&mut r, " User: ");
    append_str(&mut r, user.as_str());
    append_str(&mut r, " IP: ");
    append_str(&mut r, ip.as_str());
    append_str(&mut r, " Details: ");
    append_str(&mut r, details);
    r
}


/// A value bound to a placeholder of a query.
#[derive(Debug, Clone, PartialEq, Eq)]
pub enum QueryValue {
    Text(String),
    Integer(i64),
}

/// The decimal text of a signed number, with a minus sign when negative.
pub open spec fn signed_decimal(n: int) -> Seq<char> {
    if n < 0 { "-"@ + decimal((-n) as nat) } else { decimal(n as nat) }
}

/// The condition for a filter, when the filter is given.
pub open spec fn condition_if(given: bool, condition: Seq<char>) -> Seq<char> {
    if given { " AND "@ + condition } else { Seq::empty() }
}

/// The text of the query for the entries that match the given filters,
/// newest first, at most `limit` of them when a limit is given.
pub open spec fn log_query_text(
    user: bool,
    event: bool,
    start: bool,
    end: bool,
    severity: bool,
    limit: Option<i64>,
) -> Seq<char> {
    "SELECT * FROM audit_log WHERE 1=1"@ + condition_if(user, "user_id = ?"@) + condition_if(event, "event_type = ?"@)
        + condition_if(start, "timestamp >= ?"@) + condition_if(end, "timestamp <= ?"@) + condition_if(
        severity,
        "severity = ?"@,
    ) + " ORDER BY timestamp DESC"@ + match limit {
        Some(l) => " LIMIT "@ + signed_decimal(l as int),
        None => Seq::empty(),
    }
}

/// A value bound to a placeholder, as plain values.
pub open spec fn query_value_view(v: QueryValue) -> Result<Seq<char>, i64> {
    match v {
        QueryValue::Text(t) => Ok(t@),
        QueryValue::Integer(i) => Err(i),
    }
}

/// The text for an optional filter value, when it is given.
pub open spec fn text_if(o: Option<Seq<char>>) -> Seq<Result<Seq<char>, i64>> {
    match o {
        Some(t) => seq![Ok(t)],
        None => Seq::empty(),
    }
}

/// The number for an optional filter value, when it is given.
pub open spec fn integer_if(o: Option<i64>) -> Seq<Result<Seq<char>, i64>> {
    match o {
        Some(i) => seq![Err(i)],
        None => Seq::empty(),
    }
}

/// The decimal text of a signed number.
fn signed_decimal_text(n: i64) -> (r: String)
    ensures
        r@ == signed_decimal(n as int),
{
    if n < 0 {
        let m: u64 = ((-(n + 1)) as u64) + 1;
        let d = decimal_text(m);
        concat2("-", d.as_str())
    } else {
        decimal_text(n as u64)
    }
}

/// Appends a condition for a filter when the filter is given.
fn add_condition(q: &mut String, given: bool, condition: &str)
    ensures
        final(q)@ == old(q)@ + condition_if(given, condition@),
{
    if given {
        append_str(q, " AND ");
        append_str(q, condition);
    } else {
        assert(old(q)@ + Seq::<char>::empty() =~= old(q)@);
    }
}

/// The query for the entries matching the given filters (the user, the
/// kind of event, the earliest and latest time in seconds, the severity),
/// newest first and at most `limit` of them, with the values bound to its
/// placeholders in order.
pub fn log_query(
    user_id: Option<&str>,
    event_type: Option<&str>,
    start_time: Option<i64>,
    end_time: Option<i64>,
    severity: Option<SecuritySeverity>,
    limit: Option<i64>,
) -> (r: (String, Vec<QueryValue>))
    ensures
        r.0@ == log_query_text(
            user_id is Some,
            event_type is Some,
            start_time is Some,
            end_time is Some,
            severity is Some,
            limit,
        ),
        r.1@.map_values(|v: QueryValue| query_value_view(v)) == text_if(
            match user_id {
                Some(u) => Some(u@),
                None => None,
            },
        ) + text_if(
            match event_type {
                Some(e) => Some(e@),
                None => None,
            },
        ) + integer_if(start_time) + integer_if(end_time) + text_if(
            match severity {
                Some(s) => Some(severity_word(s)),
                None => None,
            },
        ),
{
    let mut q = owned("SELECT * FROM audit_log WHERE 1=1");
    add_condition(&mut q, user_id.is_some(), "user_id = ?");
    add_condition(&mut q, event_type.is_some(), "event_type = ?");
    add_condition(&mut q, start_time.is_some(), "timestamp >= ?");
    add_condition(&mut q, end_time.is_some(), "timestamp <= ?");
    add_condition(&mut q, severity.is_some(), "severity = ?");
    append_str(&mut q, " ORDER BY timestamp DESC");
    match limit {
        Some(l) => {
            let t = signed_decimal_text(l);
            append_str(&mut q, " LIMIT ");
            append_str(&mut q, t.as_str());
        },
        None => {},
    }
    let ghost qv = q@;
    let mut values: Vec<QueryValue> = Vec::new();
    let ghost v0 = values@.map_values(|v: QueryValue| query_value_view(v));
    if let Some(u) = user_id {
        values.push(QueryValue::Text(owned(u)));
    }
    let ghost v1 = values@.map_values(|v: QueryValue| query_value_view(v));
    assert(v1 =~= v0 + text_if(match user_id { Some(u) => Some(u@), None => None }));
    if let Some(e) = event_type {
        values.push(QueryValue::Text(owned(e)));
    }
    let ghost v2 = values@.map_values(|v: QueryValue| query_value_view(v));
    assert(v2 =~= v1 + text_if(match event_type { Some(e) => Some(e@), None => None }));
    if let Some(t) = start_time {
        values.push(QueryValue::Integer(t));
    }
    let ghost v3 = values@.map_values(|v: QueryValue| query_value_view(v));
    assert(v3 =~= v2 + integer_if(start_time));
    if let Some(t) = end_time {
        values.push(QueryValue::Integer(t));
    }
    let ghost v4 = values@.map_values(|v: QueryValue| query_value_view(v));
    assert(v4 =~= v3 + integer_if(end_time));
    if let Some(s) = severity {
        values.push(QueryValue::Text(owned(s.as_word())));
    }
    let ghost v5 = values@.map_values(|v: QueryValue| query_value_view(v));
    assert(v5 =~= v4 + text_if(match severity { Some(s) => Some(severity_word(s)), None => None }));
    assert(q@ =~= log_query_text(
        user_id is Some,
        event_type is Some,
        start_time is Some,
        end_time is Some,
        severity is Some,
        limit,
    ));
    (q, values)
}

} // verus!
