use omni::database::{DatabaseHealth, CacheStats, InstallStatus};
use omni::interactive::{recovery_choice, preselected_manager, OmniError as PromptError};
use omni::manifest::{MetaInfo, OmniManifest};
use omni::privilege_manager::PrivilegeManager;
use omni::sandboxing::Sandbox;
use omni::runtime::RuntimeManager;
use omni::text::{decimal_text, split_ws, chars_of, count_matches};

#[test]
fn status_words() {
    assert_eq!(InstallStatus::Updated.as_word(), "updated");
    assert_eq!(InstallStatus::from_word("removed"), InstallStatus::Removed);
    assert_eq!(InstallStatus::from_word("???"), InstallStatus::Failed);
    let stats = CacheStats { total_entries: 3, expired_entries: 1, total_hits: 7 };
    assert!(DatabaseHealth::from_counts(1, 2, stats, "ok").integrity_ok);
    assert!(!DatabaseHealth::from_counts(1, 2, stats, "corrupt").integrity_ok);
}

#[test]
fn prompt_errors() {
    let e = PromptError::NetworkError { details: "down".to_string() };
    assert!(e.is_recoverable());
    assert_eq!(e.suggested_action(), "Check internet connection and try again");
    assert_eq!(e.message(), "Network error: down");
    assert!(!PromptError::UserCancelled.is_recoverable());
    assert_eq!(recovery_choice(0), Ok(true));
    assert_eq!(recovery_choice(1), Ok(false));
    assert!(recovery_choice(2).is_err());
    assert_eq!(preselected_manager(&vec!["apt".to_string()]), Some(Some("apt".to_string())));
    assert_eq!(preselected_manager(&vec![]), Some(None));
    assert_eq!(preselected_manager(&vec!["a".to_string(), "b".to_string()]), None);
}

#[test]
fn manifests_and_privileges() {
    let m = OmniManifest {
        project: "p".to_string(),
        description: None,
        apps: vec![],
        meta: Some(MetaInfo { created_by: None, created_on: None, distro_fallback: Some(true) }),
    };
    assert!(m.distro_fallback());
    let user = PrivilegeManager::from_checks(false, true);
    let (p, a) = user.privileged_command("apt", &vec!["install".to_string()]).unwrap();
    assert_eq!(p, "sudo");
    assert_eq!(a, vec!["apt", "install"]);
    let nobody = PrivilegeManager::from_checks(false, false);
    assert!(nobody.privileged_command("apt", &vec![]).is_err());
    let mut s = Sandbox::new().unwrap();
    assert!(s.network_access());
    s.set_network_access(false);
    assert!(!s.network_access());
    assert!(RuntimeManager::new().check_system_health().is_ok());
}

#[test]
fn text_helpers() {
    assert_eq!(decimal_text(0), "0");
    assert_eq!(decimal_text(18446744073709551615), "18446744073709551615");
    let w = split_ws(&chars_of("  a  bc\td "));
    assert_eq!(w.len(), 3);
    assert_eq!(count_matches(&chars_of("aaaa"), &chars_of("aa")), 2);
}
