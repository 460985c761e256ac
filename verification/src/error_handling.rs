//! Error classification, circuit breaking and retry decisions.
use vstd::prelude::*;
use core::time::Duration;
use crate::docker::new_uuid_text;
use crate::secure_executor::duration_from_secs;
use crate::keyed::{insert_pair, keys_unique, pair_views, value_of};
use crate::text::{concat2, concat3, concat4, concat6, has_prefix, owned, owned_all, texts};

verus! {

/// Comprehensive error types for Omni.
pub enum OmniError {
    PackageNotFound { package: String },
    UnsupportedBoxType { box_type: String },
    NetworkError { message: String, url: Option<String> },
    DatabaseError { message: String },
    PermissionDenied { operation: String },
    InstallationFailed { package: String, box_type: String, reason: String },
    ConfigurationError { message: String },
    SecurityViolation { message: String },
    ResourceExhausted { resource: String },
    TimeoutError { operation: String, duration: Duration },
    ValidationError { field: String, message: String },
    RecoveryFailed { message: String },
    Unknown { message: String },
    DependencyResolutionFailed { message: String },
    TransactionFailed { transaction_id: String, reason: String },
    SnapshotFailed { operation: String, reason: String },
    CacheFailed { operation: String, reason: String },
}

/// Error categories for grouping and analytics.
#[derive(PartialEq, Eq, Structural, Clone, Copy, Debug, Hash)]
pub enum ErrorCategory {
    Package,
    System,
    Network,
    Storage,
    Security,
    Configuration,
    Validation,
    Recovery,
    Dependencies,
    Transaction,
    Unknown,
}

/// How bad an error is.
#[derive(PartialEq, Eq, Structural, Clone, Copy, Debug, Hash)]
pub enum ErrorSeverity {
    Low,
    Medium,
    High,
    Critical,
}

/// Ways of recovering from an error.
#[derive(PartialEq, Eq, Structural, Clone, Copy, Debug, Hash)]
pub enum RecoveryStrategy {
    Retry,
    Fallback,
    UserIntervention,
    SystemRepair,
    ConfigurationReset,
    CacheClear,
    PermissionEscalation,
    AlternativeSource,
}

/// Whether an error of this kind may go away when the operation is retried.
pub open spec fn retryable(e: &OmniError) -> bool {
    match e {
        OmniError::NetworkError { .. } => true,
        OmniError::DatabaseError { .. } => true,
        OmniError::TimeoutError { .. } => true,
        OmniError::ResourceExhausted { .. } => true,
        OmniError::PackageNotFound { .. } => false,
        OmniError::UnsupportedBoxType { .. } => false,
        OmniError::PermissionDenied { .. } => false,
        OmniError::SecurityViolation { .. } => false,
        OmniError::ValidationError { .. } => false,
        OmniError::ConfigurationError { .. } => false,
        OmniError::InstallationFailed { .. } => true,
        OmniError::RecoveryFailed { .. } => false,
        OmniError::Unknown { .. } => false,
        OmniError::DependencyResolutionFailed { .. } => true,
        OmniError::TransactionFailed { .. } => true,
        OmniError::SnapshotFailed { .. } => true,
        OmniError::CacheFailed { .. } => true,
    }
}

/// The severity of an error of this kind.
pub open spec fn severity_of(e: &OmniError) -> ErrorSeverity {
    match e {
        OmniError::SecurityViolation { .. } => ErrorSeverity::Critical,
        OmniError::PermissionDenied { .. } => ErrorSeverity::High,
        OmniError::InstallationFailed { .. } => ErrorSeverity::High,
        OmniError::ConfigurationError { .. } => ErrorSeverity::Medium,
        OmniError::ValidationError { .. } => ErrorSeverity::Medium,
        OmniError::NetworkError { .. } => ErrorSeverity::Medium,
        OmniError::DatabaseError { .. } => ErrorSeverity::Medium,
        OmniError::PackageNotFound { .. } => ErrorSeverity::Low,
        OmniError::UnsupportedBoxType { .. } => ErrorSeverity::Low,
        OmniError::TimeoutError { .. } => ErrorSeverity::Low,
        OmniError::ResourceExhausted { .. } => ErrorSeverity::Medium,
        OmniError::RecoveryFailed { .. } => ErrorSeverity::High,
        OmniError::Unknown { .. } => ErrorSeverity::Medium,
        OmniError::DependencyResolutionFailed { .. } => ErrorSeverity::High,
        OmniError::TransactionFailed { .. } => ErrorSeverity::High,
        OmniError::SnapshotFailed { .. } => ErrorSeverity::Medium,
        OmniError::CacheFailed { .. } => ErrorSeverity::Low,
    }
}

/// The category of an error of this kind.
pub open spec fn category_of(e: &OmniError) -> ErrorCategory {
    match e {
        OmniError::PackageNotFound { .. } => ErrorCategory::Package,
        OmniError::UnsupportedBoxType { .. } => ErrorCategory::System,
        OmniError::NetworkError { .. } => ErrorCategory::Network,
        OmniError::DatabaseError { .. } => ErrorCategory::Storage,
        OmniError::PermissionDenied { .. } => ErrorCategory::Security,
        OmniError::InstallationFailed { .. } => ErrorCategory::Package,
        OmniError::ConfigurationError { .. } => ErrorCategory::Configuration,
        OmniError::SecurityViolation { .. } => ErrorCategory::Security,
        OmniError::ResourceExhausted { .. } => ErrorCategory::System,
        OmniError::TimeoutError { .. } => ErrorCategory::Network,
        OmniError::ValidationError { .. } => ErrorCategory::Validation,
        OmniError::RecoveryFailed { .. } => ErrorCategory::Recovery,
        OmniError::DependencyResolutionFailed { .. } => ErrorCategory::Dependencies,
        OmniError::TransactionFailed { .. } => ErrorCategory::Transaction,
        OmniError::SnapshotFailed { .. } => ErrorCategory::Storage,
        OmniError::CacheFailed { .. } => ErrorCategory::Storage,
        OmniError::Unknown { .. } => ErrorCategory::Unknown,
    }
}

/// The documented code of an error of this kind.
pub open spec fn code_of(e: &OmniError) -> Seq<char> {
    match e {
        OmniError::PackageNotFound { .. } => "OMNI_PKG_001"@,
        OmniError::UnsupportedBoxType { .. } => "OMNI_SYS_001"@,
        OmniError::NetworkError { .. } => "OMNI_NET_001"@,
        OmniError::DatabaseError { .. } => "OMNI_DB_001"@,
        OmniError::PermissionDenied { .. } => "OMNI_SEC_001"@,
        OmniError::InstallationFailed { .. } => "OMNI_PKG_002"@,
        OmniError::ConfigurationError { .. } => "OMNI_CFG_001"@,
        OmniError::SecurityViolation { .. } => "OMNI_SEC_002"@,
        OmniError::ResourceExhausted { .. } => "OMNI_SYS_002"@,
        OmniError::TimeoutError { .. } => "OMNI_NET_002"@,
        OmniError::ValidationError { .. } => "OMNI_VAL_001"@,
        OmniError::RecoveryFailed { .. } => "OMNI_REC_001"@,
        OmniError::DependencyResolutionFailed { .. } => "OMNI_DEP_001"@,
        OmniError::TransactionFailed { .. } => "OMNI_TXN_001"@,
        OmniError::SnapshotFailed { .. } => "OMNI_SNP_001"@,
        OmniError::CacheFailed { .. } => "OMNI_CHE_001"@,
        OmniError::Unknown { .. } => "OMNI_UNK_001"@,
    }
}

/// The position of an error's variant in the declaration of `OmniError`.
pub open spec fn variant_index(e: &OmniError) -> nat {
    match e {
        OmniError::PackageNotFound { .. } => 0,
        OmniError::UnsupportedBoxType { .. } => 1,
        OmniError::NetworkError { .. } => 2,
        OmniError::DatabaseError { .. } => 3,
        OmniError::PermissionDenied { .. } => 4,
        OmniError::InstallationFailed { .. } => 5,
        OmniError::ConfigurationError { .. } => 6,
        OmniError::SecurityViolation { .. } => 7,
        OmniError::ResourceExhausted { .. } => 8,
        OmniError::TimeoutError { .. } => 9,
        OmniError::ValidationError { .. } => 10,
        OmniError::RecoveryFailed { .. } => 11,
        OmniError::Unknown { .. } => 12,
        OmniError::DependencyResolutionFailed { .. } => 13,
        OmniError::TransactionFailed { .. } => 14,
        OmniError::SnapshotFailed { .. } => 15,
        OmniError::CacheFailed { .. } => 16,
    }
}

/// Two errors have the same code exactly when they are of the same variant,
/// whatever their fields.
pub proof fn law_error_codes_distinct(e1: &OmniError, e2: &OmniError)
    ensures
        (code_of(e1) == code_of(e2)) <==> (variant_index(e1) == variant_index(e2)),
{
    reveal_strlit("OMNI_PKG_001");
    reveal_strlit("OMNI_SYS_001");
    reveal_strlit("OMNI_NET_001");
    reveal_strlit("OMNI_DB_001");
    reveal_strlit("OMNI_SEC_001");
    reveal_strlit("OMNI_PKG_002");
    reveal_strlit("OMNI_CFG_001");
    reveal_strlit("OMNI_SEC_002");
    reveal_strlit("OMNI_SYS_002");
    reveal_strlit("OMNI_NET_002");
    reveal_strlit("OMNI_VAL_001");
    reveal_strlit("OMNI_REC_001");
    reveal_strlit("OMNI_UNK_001");
    reveal_strlit("OMNI_DEP_001");
    reveal_strlit("OMNI_TXN_001");
    reveal_strlit("OMNI_SNP_001");
    reveal_strlit("OMNI_CHE_001");
    let c1 = code_of(e1);
    let c2 = code_of(e2);
    if c1 == c2 {
        assert(c1.len() == c2.len());
        assert(c1[5] == c2[5] && c1[6] == c2[6] && c1[7] == c2[7]);
        assert(c1[c1.len() - 1] == c2[c2.len() - 1]);
    }
}

/// The suggested recovery actions for an error.
pub open spec fn suggestions_of(e: &OmniError) -> Seq<Seq<char>> {
    match e {
        OmniError::PackageNotFound { package } => seq![
            "Check package name spelling: "@ + package@,
            "Try searching for similar packages"@,
            "Verify package is available in enabled repositories"@,
        ],
        OmniError::UnsupportedBoxType { box_type } => seq![
            "Install "@ + box_type@ + " package manager"@,
            "Use --box-type to specify a different package manager"@,
            "Check supported package managers with 'omni config show'"@,
        ],
        OmniError::NetworkError { .. } => seq![
            "Check internet connection"@,
            "Verify repository URLs are accessible"@,
            "Try again in a few minutes"@,
            "Use --offline mode if available"@,
        ],
        OmniError::PermissionDenied { .. } => seq![
            "Run with sudo if required"@,
            "Check file/directory permissions"@,
            "Verify user has necessary privileges"@,
        ],
        OmniError::InstallationFailed { .. } => seq![
            "Check system requirements"@,
            "Verify sufficient disk space"@,
            "Try updating package repositories"@,
            "Check for conflicting packages"@,
        ],
        OmniError::DatabaseError { .. } => seq![
            "Check database file permissions"@,
            "Verify sufficient disk space"@,
            "Try clearing corrupted cache"@,
        ],
        OmniError::ConfigurationError { .. } => seq![
            "Check configuration file syntax"@,
            "Reset to default configuration"@,
            "Verify all required fields are present"@,
        ],
        OmniError::SecurityViolation { .. } => seq![
            "Review security settings"@,
            "Verify package signatures"@,
            "Do not proceed if unsure about safety"@,
        ],
        OmniError::ResourceExhausted { resource } => seq![
            "Free up "@ + resource@,
            "Close unnecessary applications"@,
            "Check system resource usage"@,
        ],
        OmniError::TimeoutError { .. } => seq![
            "Increase timeout setting"@,
            "Check network connectivity"@,
            "Try again during off-peak hours"@,
        ],
        OmniError::ValidationError { .. } => seq![
            "Check input format and requirements"@,
            "Refer to documentation for valid values"@,
        ],
        OmniError::DependencyResolutionFailed { .. } => seq![
            "Check for circular dependencies"@,
            "Try resolving dependencies manually"@,
            "Update package repositories"@,
            "Use --force-deps flag if appropriate"@,
        ],
        OmniError::TransactionFailed { .. } => seq![
            "Review transaction operations"@,
            "Check system resources"@,
            "Retry with smaller transaction batches"@,
            "Verify package availability"@,
        ],
        OmniError::SnapshotFailed { .. } => seq![
            "Check filesystem permissions"@,
            "Verify sufficient disk space"@,
            "Try creating snapshot with different name"@,
            "Clean up corrupted snapshot data"@,
        ],
        OmniError::CacheFailed { .. } => seq![
            "Clear package cache"@,
            "Update repository metadata"@,
            "Check network connectivity"@,
            "Retry with --no-cache flag"@,
        ],
        _ => seq!["Check logs for more details"@],
    }
}

/// Owned copies of the given texts.
fn strings_of(v: Vec<&str>) -> (r: Vec<String>)
    ensures
        texts(r@) == Seq::new(v@.len(), |i: int| v@[i]@),
{
    owned_all(&v)
}

/// `Duration`'s `Debug` text (such as `30s` or `1.5s`). Nothing is stated
/// of it, as a `Duration` is opaque here.
#[verifier::external_body]
fn duration_debug(d: &Duration) -> (r: String) {
    format!("{:?}", d)
}

/// The message of an error, but for the duration of a timeout, which is
/// written as `Duration` writes itself: the variant's wording followed by
/// its fields.
pub open spec fn error_text(e: OmniError) -> Option<Seq<char>> {
    match e {
        OmniError::PackageNotFound { package } => Some("Package not found: "@ + package@),
        OmniError::UnsupportedBoxType { box_type } => Some("Box type not supported: "@ + box_type@),
        OmniError::NetworkError { message, .. } => Some("Network error: "@ + message@),
        OmniError::DatabaseError { message } => Some("Database error: "@ + message@),
        OmniError::PermissionDenied { operation } => Some("Permission denied: "@ + operation@),
        OmniError::InstallationFailed { package, box_type, reason } => Some(
            "Installation failed: "@ + package@ + " via "@ + box_type@ + ": "@ + reason@,
        ),
        OmniError::ConfigurationError { message } => Some("Configuration error: "@ + message@),
        OmniError::SecurityViolation { message } => Some("Security violation: "@ + message@),
        OmniError::ResourceExhausted { resource } => Some("Resource exhausted: "@ + resource@),
        OmniError::TimeoutError { .. } => None,
        OmniError::ValidationError { field, message } => Some("Validation error: "@ + field@ + ": "@ + message@),
        OmniError::RecoveryFailed { message } => Some("Recovery failed: "@ + message@),
        OmniError::Unknown { message } => Some("Unknown error: "@ + message@),
        OmniError::DependencyResolutionFailed { message } => Some("Dependency resolution failed: "@ + message@),
        OmniError::TransactionFailed { transaction_id, reason } => Some(
            "Transaction failed: "@ + transaction_id@ + ": "@ + reason@,
        ),
        OmniError::SnapshotFailed { operation, reason } => Some(
            "Snapshot operation failed: "@ + operation@ + ": "@ + reason@,
        ),
        OmniError::CacheFailed { operation, reason } => Some("Cache operation failed: "@ + operation@ + ": "@ + reason@),
    }
}

impl OmniError {
    /// The error's message. For a timeout, `Timeout occurred: <operation>
    /// after <duration>`, with the duration as `Duration` writes itself.
    pub fn message(&self) -> (r: String)
        ensures
            match error_text(*self) {
                Some(t) => r@ == t,
                None => self matches OmniError::TimeoutError { operation, .. } && has_prefix(
                    r@,
                    "Timeout occurred: "@ + operation@ + " after "@,
                ),
            },
    {
        match self {
            OmniError::PackageNotFound { package } => concat2("Package not found: ", package.as_str()),
            OmniError::UnsupportedBoxType { box_type } => concat2("Box type not supported: ", box_type.as_str()),
            OmniError::NetworkError { message, .. } => concat2("Network error: ", message.as_str()),
            OmniError::DatabaseError { message } => concat2("Database error: ", message.as_str()),
            OmniError::PermissionDenied { operation } => concat2("Permission denied: ", operation.as_str()),
            OmniError::InstallationFailed { package, box_type, reason } => concat6(
                "Installation failed: ",
                package.as_str(),
                " via ",
                box_type.as_str(),
                ": ",
                reason.as_str(),
            ),
            OmniError::ConfigurationError { message } => concat2("Configuration error: ", message.as_str()),
            OmniError::SecurityViolation { message } => concat2("Security violation: ", message.as_str()),
            OmniError::ResourceExhausted { resource } => concat2("Resource exhausted: ", resource.as_str()),
            OmniError::TimeoutError { operation, duration } => {
                let head = concat3("Timeout occurred: ", operation.as_str(), " after ");
                let d = duration_debug(duration);
                let r = concat2(head.as_str(), d.as_str());
                assert(r@.subrange(0, head@.len() as int) =~= head@);
                r
            },
            OmniError::ValidationError { field, message } => concat4("Validation error: ", field.as_str(), ": ", message.as_str()),
            OmniError::RecoveryFailed { message } => concat2("Recovery failed: ", message.as_str()),
            OmniError::Unknown { message } => concat2("Unknown error: ", message.as_str()),
            OmniError::DependencyResolutionFailed { message } => concat2("Dependency resolution failed: ", message.as_str()),
            OmniError::TransactionFailed { transaction_id, reason } => concat4(
                "Transaction failed: ",
                transaction_id.as_str(),
                ": ",
                reason.as_str(),
            ),
            OmniError::SnapshotFailed { operation, reason } => concat4(
                "Snapshot operation failed: ",
                operation.as_str(),
                ": ",
                reason.as_str(),
            ),
            OmniError::CacheFailed { operation, reason } => concat4(
                "Cache operation failed: ",
                operation.as_str(),
                ": ",
                reason.as_str(),
            ),
        }
    }

    /// Check if the error is retryable.
    pub fn is_retryable(&self) -> (r: bool)
        ensures
            r == retryable(self),
    {
        match self {
            OmniError::NetworkError { .. } => true,
            OmniError::DatabaseError { .. } => true,
            OmniError::TimeoutError { .. } => true,
            OmniError::ResourceExhausted { .. } => true,
            OmniError::PackageNotFound { .. } => false,
            OmniError::UnsupportedBoxType { .. } => false,
            OmniError::PermissionDenied { .. } => false,
            OmniError::SecurityViolation { .. } => false,
            OmniError::ValidationError { .. } => false,
            OmniError::ConfigurationError { .. } => false,
            OmniError::InstallationFailed { .. } => true,
            OmniError::RecoveryFailed { .. } => false,
            OmniError::Unknown { .. } => false,
            OmniError::DependencyResolutionFailed { .. } => true,
            OmniError::TransactionFailed { .. } => true,
            OmniError::SnapshotFailed { .. } => true,
            OmniError::CacheFailed { .. } => true,
        }
    }

    /// Get the severity level of the error.
    pub fn severity(&self) -> (r: ErrorSeverity)
        ensures
            r == severity_of(self),
    {
        match self {
            OmniError::SecurityViolation { .. } => ErrorSeverity::Critical,
            OmniError::PermissionDenied { .. } => ErrorSeverity::High,
            OmniError::InstallationFailed { .. } => ErrorSeverity::High,
            OmniError::ConfigurationError { .. } => ErrorSeverity::Medium,
            OmniError::ValidationError { .. } => ErrorSeverity::Medium,
            OmniError::NetworkError { .. } => ErrorSeverity::Medium,
            OmniError::DatabaseError { .. } => ErrorSeverity::Medium,
            OmniError::PackageNotFound { .. } => ErrorSeverity::Low,
            OmniError::UnsupportedBoxType { .. } => ErrorSeverity::Low,
            OmniError::TimeoutError { .. } => ErrorSeverity::Low,
            OmniError::ResourceExhausted { .. } => ErrorSeverity::Medium,
            OmniError::RecoveryFailed { .. } => ErrorSeverity::High,
            OmniError::Unknown { .. } => ErrorSeverity::Medium,
            OmniError::DependencyResolutionFailed { .. } => ErrorSeverity::High,
            OmniError::TransactionFailed { .. } => ErrorSeverity::High,
            OmniError::SnapshotFailed { .. } => ErrorSeverity::Medium,
            OmniError::CacheFailed { .. } => ErrorSeverity::Low,
        }
    }

    /// Get suggested recovery actions.
    pub fn recovery_suggestions(&self) -> (r: Vec<String>)
        ensures
            texts(r@) == suggestions_of(self),
    {
        let r = match self {
            OmniError::PackageNotFound { package } => {
                let mut v: Vec<String> = Vec::new();
                v.push(concat2("Check package name spelling: ", package.as_str()));
                v.push(owned("Try searching for similar packages"));
                v.push(owned("Verify package is available in enabled repositories"));
                v
            },
            OmniError::UnsupportedBoxType { box_type } => {
                let mut v: Vec<String> = Vec::new();
                v.push(concat3("Install ", box_type.as_str(), " package manager"));
                v.push(owned("Use --box-type to specify a different package manager"));
                v.push(owned("Check supported package managers with 'omni config show'"));
                v
            },
            OmniError::NetworkError { .. } => strings_of(vec![
                "Check internet connection",
                "Verify repository URLs are accessible",
                "Try again in a few minutes",
                "Use --offline mode if available",
            ]),
            OmniError::PermissionDenied { .. } => strings_of(vec![
                "Run with sudo if required",
                "Check file/directory permissions",
                "Verify user has necessary privileges",
            ]),
            OmniError::InstallationFailed { .. } => strings_of(vec![
                "Check system requirements",
                "Verify sufficient disk space",
                "Try updating package repositories",
                "Check for conflicting packages",
            ]),
            OmniError::DatabaseError { .. } => strings_of(vec![
                "Check database file permissions",
                "Verify sufficient disk space",
                "Try clearing corrupted cache",
            ]),
            OmniError::ConfigurationError { .. } => strings_of(vec![
                "Check configuration file syntax",
                "Reset to default configuration",
                "Verify all required fields are present",
            ]),
            OmniError::SecurityViolation { .. } => strings_of(vec![
                "Review security settings",
                "Verify package signatures",
                "Do not proceed if unsure about safety",
            ]),
            OmniError::ResourceExhausted { resource } => {
                let mut v: Vec<String> = Vec::new();
                v.push(concat2("Free up ", resource.as_str()));
                v.push(owned("Close unnecessary applications"));
                v.push(owned("Check system resource usage"));
                v
            },
            OmniError::TimeoutError { .. } => strings_of(vec![
                "Increase timeout setting",
                "Check network connectivity",
                "Try again during off-peak hours",
            ]),
            OmniError::ValidationError { .. } => strings_of(vec![
                "Check input format and requirements",
                "Refer to documentation for valid values",
            ]),
            OmniError::DependencyResolutionFailed { .. } => strings_of(vec![
                "Check for circular dependencies",
                "Try resolving dependencies manually",
                "Update package repositories",
                "Use --force-deps flag if appropriate",
            ]),
            OmniError::TransactionFailed { .. } => strings_of(vec![
                "Review transaction operations",
                "Check system resources",
                "Retry with smaller transaction batches",
                "Verify package availability",
            ]),
            OmniError::SnapshotFailed { .. } => strings_of(vec![
                "Check filesystem permissions",
                "Verify sufficient disk space",
                "Try creating snapshot with different name",
                "Clean up corrupted snapshot data",
            ]),
            OmniError::CacheFailed { .. } => strings_of(vec![
                "Clear package cache",
                "Update repository metadata",
                "Check network connectivity",
                "Retry with --no-cache flag",
            ]),
            _ => strings_of(vec!["Check logs for more details"]),
        };
        assert(texts(r@) =~= suggestions_of(self));
        r
    }

    /// Get error category for grouping and analytics.
    pub fn category(&self) -> (r: ErrorCategory)
        ensures
            r == category_of(self),
    {
        match self {
            OmniError::PackageNotFound { .. } => ErrorCategory::Package,
            OmniError::UnsupportedBoxType { .. } => ErrorCategory::System,
            OmniError::NetworkError { .. } => ErrorCategory::Network,
            OmniError::DatabaseError { .. } => ErrorCategory::Storage,
            OmniError::PermissionDenied { .. } => ErrorCategory::Security,
            OmniError::InstallationFailed { .. } => ErrorCategory::Package,
            OmniError::ConfigurationError { .. } => ErrorCategory::Configuration,
            OmniError::SecurityViolation { .. } => ErrorCategory::Security,
            OmniError::ResourceExhausted { .. } => ErrorCategory::System,
            OmniError::TimeoutError { .. } => ErrorCategory::Network,
            OmniError::ValidationError { .. } => ErrorCategory::Validation,
            OmniError::RecoveryFailed { .. } => ErrorCategory::Recovery,
            OmniError::DependencyResolutionFailed { .. } => ErrorCategory::Dependencies,
            OmniError::TransactionFailed { .. } => ErrorCategory::Transaction,
            OmniError::SnapshotFailed { .. } => ErrorCategory::Storage,
            OmniError::CacheFailed { .. } => ErrorCategory::Storage,
            OmniError::Unknown { .. } => ErrorCategory::Unknown,
        }
    }

    /// Get user-friendly error code for documentation and support.
    pub fn error_code(&self) -> (r: &'static str)
        ensures
            r@ == code_of(self),
    {
        match self {
            OmniError::PackageNotFound { .. } => "OMNI_PKG_001",
            OmniError::UnsupportedBoxType { .. } => "OMNI_SYS_001",
            OmniError::NetworkError { .. } => "OMNI_NET_001",
            OmniError::DatabaseError { .. } => "OMNI_DB_001",
            OmniError::PermissionDenied { .. } => "OMNI_SEC_001",
            OmniError::InstallationFailed { .. } => "OMNI_PKG_002",
            OmniError::ConfigurationError { .. } => "OMNI_CFG_001",
            OmniError::SecurityViolation { .. } => "OMNI_SEC_002",
            OmniError::ResourceExhausted { .. } => "OMNI_SYS_002",
            OmniError::TimeoutError { .. } => "OMNI_NET_002",
            OmniError::ValidationError { .. } => "OMNI_VAL_001",
            OmniError::RecoveryFailed { .. } => "OMNI_REC_001",
            OmniError::DependencyResolutionFailed { .. } => "OMNI_DEP_001",
            OmniError::TransactionFailed { .. } => "OMNI_TXN_001",
            OmniError::SnapshotFailed { .. } => "OMNI_SNP_001",
            OmniError::CacheFailed { .. } => "OMNI_CHE_001",
            OmniError::Unknown { .. } => "OMNI_UNK_001",
        }
    }
}

impl ErrorCategory {
    /// The category's name, as displayed.
    pub fn name(&self) -> (r: &'static str)
        ensures
            r@ == match self {
                ErrorCategory::Package => "Package"@,
                ErrorCategory::System => "System"@,
                ErrorCategory::Network => "Network"@,
                ErrorCategory::Storage => "Storage"@,
                ErrorCategory::Security => "Security"@,
                ErrorCategory::Configuration => "Configuration"@,
                ErrorCategory::Validation => "Validation"@,
                ErrorCategory::Recovery => "Recovery"@,
                ErrorCategory::Dependencies => "Dependencies"@,
                ErrorCategory::Transaction => "Transaction"@,
                ErrorCategory::Unknown => "Unknown"@,
            },
    {
        match self {
            ErrorCategory::Package => "Package",
            ErrorCategory::System => "System",
            ErrorCategory::Network => "Network",
            ErrorCategory::Storage => "Storage",
            ErrorCategory::Security => "Security",
            ErrorCategory::Configuration => "Configuration",
            ErrorCategory::Validation => "Validation",
            ErrorCategory::Recovery => "Recovery",
            ErrorCategory::Dependencies => "Dependencies",
            ErrorCategory::Transaction => "Transaction",
            ErrorCategory::Unknown => "Unknown",
        }
    }
}

impl ErrorSeverity {
    /// The severity's name, as displayed.
    pub fn name(&self) -> (r: &'static str)
        ensures
            r@ == match self {
                ErrorSeverity::Low => "LOW"@,
                ErrorSeverity::Medium => "MEDIUM"@,
                ErrorSeverity::High => "HIGH"@,
                ErrorSeverity::Critical => "CRITICAL"@,
            },
    {
        match self {
            ErrorSeverity::Low => "LOW",
            ErrorSeverity::Medium => "MEDIUM",
            ErrorSeverity::High => "HIGH",
            ErrorSeverity::Critical => "CRITICAL",
        }
    }
}

/// The recovery strategies tried, in order, for errors of a category.
pub open spec fn strategies_for(c: ErrorCategory) -> Seq<RecoveryStrategy> {
    match c {
        ErrorCategory::Network => seq![RecoveryStrategy::Retry, RecoveryStrategy::AlternativeSource],
        ErrorCategory::Storage => seq![
            RecoveryStrategy::CacheClear,
            RecoveryStrategy::SystemRepair,
            RecoveryStrategy::Retry,
        ],
        ErrorCategory::Package => seq![
            RecoveryStrategy::AlternativeSource,
            RecoveryStrategy::Retry,
            RecoveryStrategy::Fallback,
        ],
        ErrorCategory::Security => seq![
            RecoveryStrategy::PermissionEscalation,
            RecoveryStrategy::UserIntervention,
        ],
        ErrorCategory::Configuration => seq![
            RecoveryStrategy::ConfigurationReset,
            RecoveryStrategy::UserIntervention,
        ],
        ErrorCategory::Dependencies => seq![
            RecoveryStrategy::Retry,
            RecoveryStrategy::AlternativeSource,
            RecoveryStrategy::Fallback,
        ],
        _ => Seq::empty(),
    }
}

/// The default recovery strategies for errors of a category, in the order
/// they are tried.
pub fn default_recovery_strategies(category: ErrorCategory) -> (r: Vec<RecoveryStrategy>)
    ensures
        r@ == strategies_for(category),
{
    let r = match category {
        ErrorCategory::Network => vec![RecoveryStrategy::Retry, RecoveryStrategy::AlternativeSource],
        ErrorCategory::Storage => vec![
            RecoveryStrategy::CacheClear,
            RecoveryStrategy::SystemRepair,
            RecoveryStrategy::Retry,
        ],
        ErrorCategory::Package => vec![
            RecoveryStrategy::AlternativeSource,
            RecoveryStrategy::Retry,
            RecoveryStrategy::Fallback,
        ],
        ErrorCategory::Security => vec![
            RecoveryStrategy::PermissionEscalation,
            RecoveryStrategy::UserIntervention,
        ],
        ErrorCategory::Configuration => vec![
            RecoveryStrategy::ConfigurationReset,
            RecoveryStrategy::UserIntervention,
        ],
        ErrorCategory::Dependencies => vec![
            RecoveryStrategy::Retry,
            RecoveryStrategy::AlternativeSource,
            RecoveryStrategy::Fallback,
        ],
        _ => Vec::new(),
    };
    assert(r@ =~= strategies_for(category));
    r
}

/// Whether a recovery strategy completes without the user: every strategy
/// but `UserIntervention` does.
pub fn strategy_succeeds(strategy: RecoveryStrategy) -> (r: bool)
    ensures
        r == (strategy != RecoveryStrategy::UserIntervention),
{
    match strategy {
        RecoveryStrategy::UserIntervention => false,
        _ => true,
    }
}

/// The first strategy of `strategies` that completes, if any: the one that
/// automatic recovery settles on.
pub fn first_successful_strategy(strategies: &Vec<RecoveryStrategy>) -> (r: Option<RecoveryStrategy>)
    ensures
        match r {
            Some(s) => exists|i: int|
                0 <= i < strategies@.len() && strategies@[i] == s && s != RecoveryStrategy::UserIntervention
                    && forall|j: int| 0 <= j < i ==> strategies@[j] == RecoveryStrategy::UserIntervention,
            None => forall|j: int| 0 <= j < strategies@.len() ==> strategies@[j] == RecoveryStrategy::UserIntervention,
        },
{
    let mut i: usize = 0;
    while i < strategies.len()
        invariant
            i <= strategies@.len(),
            forall|j: int| 0 <= j < i ==> strategies@[j] == RecoveryStrategy::UserIntervention,
        decreases strategies.len() - i,
    {
        let s = strategies[i];
        if strategy_succeeds(s) {
            return Some(s);
        }
        i = i + 1;
    }
    None
}

/// What a retry loop does after an attempt fails.
#[derive(PartialEq, Eq, Structural, Clone, Copy, Debug)]
pub enum RetryStep {
    /// Wait, then make the next attempt.
    RetryAfterDelay,
    /// Give up and report the error.
    GiveUp,
}

/// After failed attempt `attempt` (counted from 1) of `max_attempts`, with
/// an error that is or is not retryable: retry while attempts remain and
/// the error is retryable.
pub fn step_after_failure(attempt: usize, max_attempts: usize, error_retryable: bool) -> (r: RetryStep)
    ensures
        r == if attempt < max_attempts && error_retryable {
            RetryStep::RetryAfterDelay
        } else {
            RetryStep::GiveUp
        },
{
    if attempt < max_attempts && error_retryable {
        RetryStep::RetryAfterDelay
    } else {
        RetryStep::GiveUp
    }
}

/// The state of a circuit breaker.
#[derive(PartialEq, Eq, Structural, Clone, Copy, Debug)]
pub enum CircuitState {
    /// Normal operation.
    Closed,
    /// Rejecting requests.
    Open,
    /// Testing whether the service has recovered.
    HalfOpen,
}

/// The milliseconds in `secs` seconds, saturated to `u64`.
pub open spec fn secs_as_millis(secs: u64) -> u64 {
    if secs * 1000 <= u64::MAX {
        (secs * 1000) as u64
    } else {
        u64::MAX
    }
}

/// `Duration::as_millis`, saturated to `u64`. A `Duration` is opaque here;
/// of one made by `Duration::from_secs(s)` it states what the documentation
/// of those two functions gives: `s * 1000` milliseconds, here saturated.
/// Of other durations nothing is stated.
#[verifier::external_body]
pub(crate) fn duration_millis(d: &Duration) -> (r: u64)
    ensures
        forall|s: u64| *d == duration_from_secs(s) ==> r == secs_as_millis(s),
{
    u64::try_from(d.as_millis()).unwrap_or(u64::MAX)
}

/// The monotonic clock of a circuit breaker: milliseconds since it was made.
#[verifier::external_body]
pub(crate) fn breaker_clock(origin: &std::time::Instant) -> (r: u64) {
    u64::try_from(origin.elapsed().as_millis()).unwrap_or(u64::MAX)
}

/// Circuit breaker pattern for handling cascading failures.
pub struct CircuitBreaker {
    failure_threshold: usize,
    recovery_timeout: Duration,
    recovery_timeout_ms: u64,
    failure_count: usize,
    last_failure_time: Option<u64>,
    state: CircuitState,
    origin: std::time::Instant,
}

/// `after` is `before` with a failure at `now` recorded: one more failure
/// (saturating), the failure time noted, and the breaker open once the
/// count reaches the threshold.
pub open spec fn failed_at(before: CircuitBreaker, after: CircuitBreaker, now: u64) -> bool {
    &&& after.failures() == if before.failures() < usize::MAX { before.failures() + 1 } else { before.failures() }
    &&& after.threshold() == before.threshold()
    &&& after.last_failure() == Some(now)
    &&& after.state_of() == if after.failures() >= before.threshold() {
        CircuitState::Open
    } else {
        before.state_of()
    }
}

/// `after` and `r` are what asking `before` whether it is open at `now`
/// gives: counts, threshold, last failure and timeout stay; a closed or
/// half-open breaker lets the request through; an open one turns half-open
/// and lets it through once its timeout has passed since the last failure,
/// and otherwise stays open and rejects it.
pub open spec fn checked_open_at(before: CircuitBreaker, after: CircuitBreaker, now: u64, r: bool) -> bool {
    &&& after.failures() == before.failures()
    &&& after.threshold() == before.threshold()
    &&& after.last_failure() == before.last_failure()
    &&& after.timeout_ms() == before.timeout_ms()
    &&& match before.state_of() {
        CircuitState::Closed => !r && after.state_of() == CircuitState::Closed,
        CircuitState::HalfOpen => !r && after.state_of() == CircuitState::HalfOpen,
        CircuitState::Open => match before.last_failure() {
            Some(t) => if now >= t && now - t >= before.timeout_ms() {
                !r && after.state_of() == CircuitState::HalfOpen
            } else {
                r && after.state_of() == CircuitState::Open
            },
            None => r && after.state_of() == CircuitState::Open,
        },
    }
}

/// An open breaker made with a recovery timeout of `secs` seconds lets a
/// request through again, half-open, once that many seconds have passed
/// since its last failure; before that it rejects requests and stays open.
pub proof fn law_breaker_retries_after_timeout(
    before: CircuitBreaker,
    after: CircuitBreaker,
    now: u64,
    r: bool,
    secs: u64,
)
    requires
        before.state_of() == CircuitState::Open,
        before.last_failure() is Some,
        before.timeout_ms() == secs_as_millis(secs),
        checked_open_at(before, after, now, r),
    ensures
        now >= before.last_failure()->0 + secs_as_millis(secs) ==> !r && after.state_of() == CircuitState::HalfOpen,
        before.last_failure()->0 <= now < before.last_failure()->0 + secs_as_millis(secs) ==> r && after.state_of()
            == CircuitState::Open,
{
}

/// `after` is `before` with a success recorded: no failures counted, and a
/// half-open breaker closed; threshold, last failure and timeout kept.
pub open spec fn succeeded(before: CircuitBreaker, after: CircuitBreaker) -> bool {
    &&& after.failures() == 0
    &&& after.threshold() == before.threshold()
    &&& after.last_failure() == before.last_failure()
    &&& after.timeout_ms() == before.timeout_ms()
    &&& after.state_of() == if before.state_of() == CircuitState::HalfOpen {
        CircuitState::Closed
    } else {
        before.state_of()
    }
}

/// Along consecutive failures that keep the timeout, the timeout stays.
proof fn lemma_timeout_kept(bs: Seq<CircuitBreaker>)
    requires
        bs.len() >= 1,
        forall|i: int| 0 <= i < bs.len() - 1 ==> (#[trigger] bs[i + 1]).timeout_ms() == bs[i].timeout_ms(),
    ensures
        forall|i: int| 0 <= i < bs.len() ==> (#[trigger] bs[i]).timeout_ms() == bs[0].timeout_ms(),
    decreases bs.len(),
{
    if bs.len() > 1 {
        let n = (bs.len() - 1) as int;
        assert forall|i: int| 0 <= i < n - 1 implies (#[trigger] bs.take(n)[i + 1]).timeout_ms() == bs.take(n)[i].timeout_ms() by {
            assert(bs[i + 1].timeout_ms() == bs[i].timeout_ms());
        }
        lemma_timeout_kept(bs.take(n));
        assert forall|i: int| 0 <= i < bs.len() implies (#[trigger] bs[i]).timeout_ms() == bs[0].timeout_ms() by {
            if i < n {
                assert(bs.take(n)[i] == bs[i]);
            } else {
                let m = n - 1;
                assert(0 <= m < bs.len() - 1);
                assert(bs[m + 1].timeout_ms() == bs[m].timeout_ms());
                assert(bs.take(n)[m] == bs[m]);
            }
        }
    }
}

/// The cycle of a breaker made closed, with threshold `t` and a recovery
/// timeout of `secs` seconds: after `t` consecutive failures it is open;
/// asked within the timeout after the last failure it rejects the request
/// and stays open; asked once the timeout has passed it lets the request
/// through, and a success then closes it with no failures counted.
pub proof fn law_breaker_cycle(
    bs: Seq<CircuitBreaker>,
    times: Seq<u64>,
    secs: u64,
    asked: CircuitBreaker,
    now: u64,
    r: bool,
    after_success: CircuitBreaker,
)
    requires
        bs.len() >= 2,
        times.len() == bs.len() - 1,
        bs[0].state_of() == CircuitState::Closed,
        bs[0].failures() == 0,
        bs[0].threshold() == bs.len() - 1,
        bs[0].timeout_ms() == secs_as_millis(secs),
        forall|i: int| 0 <= i < bs.len() - 1 ==> failed_at(#[trigger] bs[i], bs[i + 1], times[i]),
        forall|i: int| 0 <= i < bs.len() - 1 ==> (#[trigger] bs[i + 1]).timeout_ms() == bs[i].timeout_ms(),
        checked_open_at(bs.last(), asked, now, r),
        succeeded(asked, after_success),
    ensures
        bs.last().state_of() == CircuitState::Open,
        times.last() <= now < times.last() + secs_as_millis(secs) ==> r && asked.state_of() == CircuitState::Open,
        now >= times.last() + secs_as_millis(secs) ==> {
            &&& !r
            &&& asked.state_of() == CircuitState::HalfOpen
            &&& after_success.state_of() == CircuitState::Closed
            &&& after_success.failures() == 0
        },
{
    law_breaker_opens_at_threshold(bs, times);
    lemma_timeout_kept(bs);
    let n = bs.len() - 1;
    assert(bs[n] == bs.last());
    assert(failed_at(bs[n - 1], bs[n], times[n - 1]));
    assert(bs.last().last_failure() == Some(times.last()));
    law_breaker_retries_after_timeout(bs.last(), asked, now, r, secs);
}

/// A closed breaker with no failures counted, after as many consecutive
/// failures as its threshold (and no success between them), is open; after
/// fewer it is still closed.
pub proof fn law_breaker_opens_at_threshold(bs: Seq<CircuitBreaker>, times: Seq<u64>)
    requires
        bs.len() >= 1,
        times.len() == bs.len() - 1,
        bs[0].state_of() == CircuitState::Closed,
        bs[0].failures() == 0,
        bs[0].threshold() >= 1,
        forall|i: int| 0 <= i < bs.len() - 1 ==> failed_at(#[trigger] bs[i], bs[i + 1], times[i]),
    ensures
        forall|i: int| 0 <= i < bs.len() ==> (#[trigger] bs[i]).state_of() == if i >= bs[0].threshold() {
            CircuitState::Open
        } else {
            CircuitState::Closed
        },
    decreases bs.len(),
{
    if bs.len() > 1 {
        let n = (bs.len() - 1) as int;
        law_breaker_opens_at_threshold(bs.take(n), times.take(n - 1));
        lemma_failures_count(bs, times);
        assert forall|i: int| 0 <= i < bs.len() implies (#[trigger] bs[i]).state_of() == if i >= bs[0].threshold() {
            CircuitState::Open
        } else {
            CircuitState::Closed
        } by {
            if i < n {
                assert(bs.take(n)[i] == bs[i]);
            } else {
                assert(failed_at(bs[n - 1], bs[n], times[n - 1]));
                assert(bs.take(n)[n - 1] == bs[n - 1]);
            }
        }
    }
}

/// Along consecutive failures from none, the count is the number of
/// failures (while it does not saturate) and the threshold stays.
proof fn lemma_failures_count(bs: Seq<CircuitBreaker>, times: Seq<u64>)
    requires
        bs.len() >= 1,
        times.len() == bs.len() - 1,
        bs[0].failures() == 0,
        forall|i: int| 0 <= i < bs.len() - 1 ==> failed_at(#[trigger] bs[i], bs[i + 1], times[i]),
    ensures
        forall|i: int| 0 <= i < bs.len() ==> (#[trigger] bs[i]).threshold() == bs[0].threshold()
            && (i <= usize::MAX ==> bs[i].failures() == i),
    decreases bs.len(),
{
    if bs.len() > 1 {
        let n = (bs.len() - 1) as int;
        lemma_failures_count(bs.take(n), times.take(n - 1));
        assert forall|i: int| 0 <= i < bs.len() implies (#[trigger] bs[i]).threshold() == bs[0].threshold()
            && (i <= usize::MAX ==> bs[i].failures() == i) by {
            if i < n {
                assert(bs.take(n)[i] == bs[i]);
            } else {
                assert(bs.take(n)[n - 1] == bs[n - 1]);
                assert(failed_at(bs[n - 1], bs[n], times[n - 1]));
            }
        }
    }
}

impl CircuitBreaker {
    /// Its state.
    pub closed spec fn state_of(&self) -> CircuitState {
        self.state
    }

    /// Consecutive failures counted.
    pub closed spec fn failures(&self) -> nat {
        self.failure_count as nat
    }

    /// Failures after which it opens.
    pub closed spec fn threshold(&self) -> nat {
        self.failure_threshold as nat
    }

    /// When the last failure happened.
    pub closed spec fn last_failure(&self) -> Option<u64> {
        self.last_failure_time
    }

    /// How long it stays open before trying again.
    pub closed spec fn timeout(&self) -> Duration {
        self.recovery_timeout
    }

    /// How long it stays open before trying again, in milliseconds.
    pub closed spec fn timeout_ms(&self) -> u64 {
        self.recovery_timeout_ms
    }

    /// A closed circuit breaker that opens after `failure_threshold`
    /// consecutive failures and stays open for `recovery_timeout`.
    pub fn new(failure_threshold: usize, recovery_timeout: Duration) -> (r: Self)
        ensures
            r.state_of() == CircuitState::Closed,
            r.failures() == 0,
            r.threshold() == failure_threshold,
            r.last_failure() is None,
            r.timeout() == recovery_timeout,
            forall|s: u64| recovery_timeout == duration_from_secs(s) ==> r.timeout_ms() == secs_as_millis(s),
    {
        let ms = duration_millis(&recovery_timeout);
        CircuitBreaker {
            failure_threshold,
            recovery_timeout,
            recovery_timeout_ms: ms,
            failure_count: 0,
            last_failure_time: None,
            state: CircuitState::Closed,
            origin: crate::rate_limiter::instant_now(),
        }
    }

    /// Whether requests are rejected at time `now`. An open breaker whose
    /// recovery timeout has passed since the last failure turns half-open
    /// and lets a request through.
    pub fn is_open_at(&mut self, now: u64) -> (r: bool)
        ensures
            checked_open_at(*old(self), *final(self), now, r),
            final(self).failures() == old(self).failures(),
            final(self).threshold() == old(self).threshold(),
            final(self).last_failure() == old(self).last_failure(),
            final(self).timeout_ms() == old(self).timeout_ms(),
            match old(self).state_of() {
                CircuitState::Closed => !r && final(self).state_of() == CircuitState::Closed,
                CircuitState::HalfOpen => !r && final(self).state_of() == CircuitState::HalfOpen,
                CircuitState::Open => match old(self).last_failure() {
                    Some(t) => if now >= t && now - t >= old(self).timeout_ms() {
                        !r && final(self).state_of() == CircuitState::HalfOpen
                    } else {
                        r && final(self).state_of() == CircuitState::Open
                    },
                    None => r && final(self).state_of() == CircuitState::Open,
                },
            },
    {
        match self.state {
            CircuitState::Closed => false,
            CircuitState::Open => {
                match self.last_failure_time {
                    Some(t) => {
                        if now >= t && now - t >= self.recovery_timeout_ms {
                            self.state = CircuitState::HalfOpen;
                            false
                        } else {
                            true
                        }
                    },
                    None => true,
                }
            },
            CircuitState::HalfOpen => false,
        }
    }

    /// Whether requests are rejected now, on the breaker's clock.
    pub fn is_open(&mut self) -> (r: bool)
        ensures
            final(self).failures() == old(self).failures(),
            final(self).threshold() == old(self).threshold(),
            final(self).last_failure() == old(self).last_failure(),
            final(self).timeout_ms() == old(self).timeout_ms(),
            old(self).state_of() != CircuitState::Open ==> !r && final(self).state_of() == old(self).state_of(),
            exists|now: u64| #[trigger] checked_open_at(*old(self), *final(self), now, r),
    {
        let now = breaker_clock(&self.origin);
        let r = self.is_open_at(now);
        assert(checked_open_at(*old(self), *self, now, r));
        r
    }

    /// Records a successful operation: the failure count is reset, and a
    /// half-open breaker closes.
    pub fn on_success(&mut self)
        ensures
            succeeded(*old(self), *final(self)),
            final(self).failures() == 0,
            final(self).threshold() == old(self).threshold(),
            final(self).last_failure() == old(self).last_failure(),
            final(self).timeout_ms() == old(self).timeout_ms(),
            final(self).state_of() == if old(self).state_of() == CircuitState::HalfOpen {
                CircuitState::Closed
            } else {
                old(self).state_of()
            },
    {
        self.failure_count = 0;
        if self.state == CircuitState::HalfOpen {
            self.state = CircuitState::Closed;
        }
    }

    /// Records a failed operation at time `now`: the failure count grows by
    /// one (saturating), the failure time is noted, and the breaker opens
    /// once the count reaches the threshold.
    pub fn on_failure_at(&mut self, now: u64)
        ensures
            failed_at(*old(self), *final(self), now),
            final(self).timeout_ms() == old(self).timeout_ms(),
    {
        if self.failure_count < usize::MAX {
            self.failure_count = self.failure_count + 1;
        }
        self.last_failure_time = Some(now);
        if self.failure_count >= self.failure_threshold {
            self.state = CircuitState::Open;
        }
    }

    /// Records a failed operation now, on the breaker's clock.
    pub fn on_failure(&mut self)
        ensures
            exists|now: u64| failed_at(*old(self), *final(self), now),
            final(self).timeout_ms() == old(self).timeout_ms(),
    {
        let now = breaker_clock(&self.origin);
        self.on_failure_at(now)
    }

    /// The recovery timeout the breaker was made with.
    pub fn recovery_timeout(&self) -> (r: &Duration)
        ensures
            *r == self.timeout(),
    {
        &self.recovery_timeout
    }
}

/// The message of the error reported while a circuit is open.
pub fn circuit_open_message() -> (r: &'static str)
    ensures
        r@ == "Circuit breaker is open"@,
{
    "Circuit breaker is open"
}

/// `SystemTime::now()`, as whole seconds since the Unix epoch (0 for a
/// clock set before it). Nothing is stated of it: it is the time.
#[verifier::external_body]
pub(crate) fn unix_seconds() -> (r: u64) {
    std::time::SystemTime::now().duration_since(std::time::UNIX_EPOCH).unwrap_or_default().as_secs()
}

/// One attempt at recovering from an error.
pub struct RecoveryAttempt {
    pub attempt_id: String,
    pub strategy: RecoveryStrategy,
    pub timestamp: u64,
    pub success: bool,
    pub details: String,
}

/// An error with what is known of it and what was tried against it.
pub struct ErrorContext {
    pub error_id: String,
    pub error: OmniError,
    pub timestamp: u64,
    pub operation: String,
    pub context_data: Vec<(String, String)>,
    pub retry_count: usize,
    pub recovery_attempts: Vec<RecoveryAttempt>,
    pub resolved: bool,
}

impl ErrorContext {
    /// The context is resolved exactly when one of its recovery attempts
    /// succeeded, and its data has each key once.
    pub open spec fn consistent(&self) -> bool {
        &&& self.resolved == exists|i: int| 0 <= i < self.recovery_attempts@.len() && (#[trigger] self.recovery_attempts@[i]).success
        &&& keys_unique(pair_views(self.context_data@))
    }

    /// A context for `error` raised by `operation`, with the identifier
    /// and time given, no data, no retries and no recovery attempts.
    pub fn created(error: OmniError, operation: String, error_id: String, timestamp: u64) -> (r: Self)
        ensures
            r.error == error,
            r.operation == operation,
            r.error_id == error_id,
            r.timestamp == timestamp,
            r.context_data@.len() == 0,
            r.retry_count == 0,
            r.recovery_attempts@.len() == 0,
            !r.resolved,
            r.consistent(),
    {
        let r = ErrorContext {
            error_id,
            error,
            timestamp,
            operation,
            context_data: Vec::new(),
            retry_count: 0,
            recovery_attempts: Vec::new(),
            resolved: false,
        };
        assert(pair_views(r.context_data@) =~= Seq::<(Seq<char>, Seq<char>)>::empty());
        r
    }

    /// A context for `error` raised by `operation`, identified by a fresh
    /// random identifier (36 characters) and stamped with the current time.
    pub fn new(error: OmniError, operation: String) -> (r: Self)
        ensures
            r.error == error,
            r.operation == operation,
            r.error_id@.len() == 36,
            r.context_data@.len() == 0,
            r.retry_count == 0,
            r.recovery_attempts@.len() == 0,
            !r.resolved,
            r.consistent(),
    {
        let id = new_uuid_text();
        let now = unix_seconds();
        Self::created(error, operation, id, now)
    }

    /// Set a piece of data about the error (replacing an earlier value of
    /// the key).
    pub fn add_context(&mut self, key: String, value: String)
        requires
            old(self).consistent(),
        ensures
            final(self).consistent(),
            value_of(pair_views(final(self).context_data@), key@) == Some(value@),
            forall|k: Seq<char>| k != key@ ==> value_of(pair_views(final(self).context_data@), k) == value_of(
                pair_views(old(self).context_data@),
                k,
            ),
            final(self).error == old(self).error,
            final(self).error_id == old(self).error_id,
            final(self).timestamp == old(self).timestamp,
            final(self).operation == old(self).operation,
            final(self).retry_count == old(self).retry_count,
            final(self).recovery_attempts == old(self).recovery_attempts,
            final(self).resolved == old(self).resolved,
    {
        insert_pair(&mut self.context_data, key, value);
    }

    /// Record a recovery attempt; a successful one resolves the error.
    pub fn record_attempt(&mut self, attempt: RecoveryAttempt)
        requires
            old(self).consistent(),
        ensures
            final(self).consistent(),
            final(self).recovery_attempts@ == old(self).recovery_attempts@.push(attempt),
            final(self).resolved == (old(self).resolved || attempt.success),
            final(self).error == old(self).error,
            final(self).error_id == old(self).error_id,
            final(self).timestamp == old(self).timestamp,
            final(self).operation == old(self).operation,
            final(self).retry_count == old(self).retry_count,
            final(self).context_data == old(self).context_data,
    {
        let ghost before = self.recovery_attempts@;
        let ghost a = attempt;
        if attempt.success {
            self.resolved = true;
        }
        self.recovery_attempts.push(attempt);
        proof {
            let now = self.recovery_attempts@;
            assert(now =~= before.push(a));
            if a.success {
                assert(now[before.len() as int].success);
            }
            if exists|i: int| 0 <= i < now.len() && (#[trigger] now[i]).success {
                let i = choose|i: int| 0 <= i < now.len() && (#[trigger] now[i]).success;
                if i < before.len() {
                    assert(before[i].success);
                }
            }
            if exists|i: int| 0 <= i < before.len() && (#[trigger] before[i]).success {
                let i = choose|i: int| 0 <= i < before.len() && (#[trigger] before[i]).success;
                assert(now[i].success);
            }
        }
    }

    /// Record a recovery attempt with `strategy`, identified by a fresh
    /// random identifier and stamped with the current time; a successful
    /// one resolves the error.
    pub fn add_recovery_attempt(&mut self, strategy: RecoveryStrategy, success: bool, details: String)
        requires
            old(self).consistent(),
        ensures
            final(self).consistent(),
            final(self).recovery_attempts@.len() == old(self).recovery_attempts@.len() + 1,
            final(self).recovery_attempts@.take(old(self).recovery_attempts@.len() as int) == old(self).recovery_attempts@,
            final(self).recovery_attempts@.last().strategy == strategy,
            final(self).recovery_attempts@.last().success == success,
            final(self).recovery_attempts@.last().details == details,
            final(self).recovery_attempts@.last().attempt_id@.len() == 36,
            final(self).resolved == (old(self).resolved || success),
            final(self).error == old(self).error,
            final(self).retry_count == old(self).retry_count,
            final(self).context_data == old(self).context_data,
    {
        let attempt = RecoveryAttempt {
            attempt_id: new_uuid_text(),
            strategy,
            timestamp: unix_seconds(),
            success,
            details,
        };
        let ghost before = self.recovery_attempts@;
        self.record_attempt(attempt);
        assert(self.recovery_attempts@.take(before.len() as int) =~= before);
    }

    /// Count one more retry.
    pub fn increment_retry(&mut self)
        requires
            old(self).retry_count < usize::MAX,
        ensures
            final(self).retry_count == old(self).retry_count + 1,
            final(self).error == old(self).error,
            final(self).resolved == old(self).resolved,
            final(self).recovery_attempts == old(self).recovery_attempts,
            final(self).context_data == old(self).context_data,
    {
        self.retry_count = self.retry_count + 1;
    }
}

} // verus!
