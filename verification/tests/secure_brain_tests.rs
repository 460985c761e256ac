use omni::error_handling::OmniError;
use omni::database::InstallStatus;
use omni::secure_brain::{
    check_security_warnings, get_system_status, parse_version_constraints, secure_search, validate_install_request,
};

#[test]
fn test_input_validation() {
    // Invalid package name
    let result = validate_install_request(&vec!["../../../etc/passwd".to_string()], None);
    assert!(result.is_err());

    // Invalid box type
    let result = validate_install_request(&vec!["firefox".to_string()], Some("malicious"));
    assert!(result.is_err());
}

#[test]
fn test_search_sanitization() {
    // Valid search
    let result = secure_search("firefox web browser", None, None);
    assert!(result.is_ok());

    // Invalid search with dangerous characters
    let result = secure_search("test; rm -rf /", None, None);
    assert!(result.is_err());

    // Empty search
    let result = secure_search("", None, None);
    assert!(result.is_err());
}

#[test]
fn install_requests_with_valid_names_pass() {
    assert!(validate_install_request(&vec!["firefox".to_string(), "vim".to_string()], Some("apt")).is_ok());
    assert!(validate_install_request(&vec![], None).is_ok());
}

#[test]
fn query_refusals_say_why() {
    match secure_search("", None, None) {
        Err(OmniError::ValidationError { field, message }) => {
            assert_eq!(field, "query");
            assert_eq!(message, "Search query must be 1-255 characters");
        },
        _ => panic!("an empty query is refused"),
    }
    match secure_search("a|b", None, None) {
        Err(OmniError::ValidationError { message, .. }) => assert_eq!(message, "Query contains invalid characters"),
        _ => panic!("a pipe is refused"),
    }
    let long = "a".repeat(256);
    assert!(secure_search(&long, None, None).is_err());
    assert!(secure_search(&"a".repeat(255), None, None).is_ok());
    assert!(secure_search("gcc-12 c++ lib_x.y", None, Some(5)).ok().map(|v| v.is_empty()) == Some(true));
}

#[test]
fn root_user_is_warned_about() {
    assert_eq!(
        check_security_warnings(true),
        vec!["Running as root user - consider using privilege dropping".to_string()]
    );
    assert!(check_security_warnings(false).is_empty());
}

#[test]
fn system_status_counts_failures() {
    let st = get_system_status(&vec![InstallStatus::Success, InstallStatus::Failed, InstallStatus::Failed], false);
    assert_eq!(st.total_packages, 3);
    assert_eq!(st.failed_packages, 2);
    assert_eq!(st.pending_updates, 0);
    assert!(st.last_update.is_none());
    assert!(st.security_warnings.is_empty());
    assert_eq!(get_system_status(&vec![], true).security_warnings.len(), 1);
}

#[test]
fn invalid_version_constraints_become_any() {
    assert!(parse_version_constraints(None).is_empty());
    let got = parse_version_constraints(Some(vec![
        ("a".to_string(), ">=1.2".to_string()),
        ("b".to_string(), "not a version".to_string()),
    ]));
    assert_eq!(
        got,
        vec![("a".to_string(), ">=1.2".to_string()), ("b".to_string(), "*".to_string())]
    );
}

#[test]
fn non_ascii_letters_are_allowed_in_queries() {
    assert!(secure_search("café crème", None, None).is_ok());
    assert!(secure_search("naïve→arrow", None, None).is_err());
}
