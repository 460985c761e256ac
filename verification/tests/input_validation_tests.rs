use omni::input_validation::InputValidator;

#[test]
fn test_package_name_validation() {
    assert!(InputValidator::validate_package_name("firefox").is_ok());
    assert!(InputValidator::validate_package_name("gcc-9").is_ok());
    assert!(InputValidator::validate_package_name("lib64.so.1").is_ok());
    assert!(InputValidator::validate_package_name("python3.9").is_ok());

    assert!(InputValidator::validate_package_name("").is_err());
    assert!(InputValidator::validate_package_name("../etc/passwd").is_err());
    assert!(InputValidator::validate_package_name("test/package").is_err());
    assert!(InputValidator::validate_package_name("test\\package").is_err());
    assert!(InputValidator::validate_package_name("con").is_err());
}

#[test]
fn test_url_validation() {
    assert!(InputValidator::validate_url("https://example.com/package.deb").is_ok());
    assert!(InputValidator::validate_url("http://packages.ubuntu.com/pool/main/").is_ok());

    assert!(InputValidator::validate_url("").is_err());
    assert!(InputValidator::validate_url("ftp://example.com/file").is_err());
    assert!(InputValidator::validate_url("https://localhost/evil").is_err());
    assert!(InputValidator::validate_url("https://127.0.0.1/evil").is_err());
    assert!(InputValidator::validate_url("https://192.168.1.1/evil").is_err());
}

#[test]
fn test_command_args_validation() {
    assert!(InputValidator::validate_command_args(&["install", "firefox"]).is_ok());
    assert!(InputValidator::validate_command_args(&["-y", "--force"]).is_ok());

    assert!(InputValidator::validate_command_args(&["test; rm -rf /"]).is_err());
    assert!(InputValidator::validate_command_args(&["test && malicious"]).is_err());
    assert!(InputValidator::validate_command_args(&["test`whoami`"]).is_err());
}

#[test]
fn test_box_type_validation() {
    assert!(InputValidator::validate_box_type("apt").is_ok());
    assert!(InputValidator::validate_box_type("dnf").is_ok());
    assert!(InputValidator::validate_box_type("snap").is_ok());

    assert!(InputValidator::validate_box_type("").is_err());
    assert!(InputValidator::validate_box_type("invalid").is_err());
    assert!(InputValidator::validate_box_type("custom_manager").is_err());
}

#[test]
fn test_shell_safe_validation() {
    assert!(InputValidator::validate_shell_safe("firefox").is_ok());
    assert!(InputValidator::validate_shell_safe("package-name").is_ok());
    assert!(InputValidator::validate_shell_safe("package.name").is_ok());
    assert!(InputValidator::validate_shell_safe("123").is_ok());

    assert!(InputValidator::validate_shell_safe("test;rm -rf /").is_err());
    assert!(InputValidator::validate_shell_safe("test && malicious").is_err());
    assert!(InputValidator::validate_shell_safe("test`whoami`").is_err());
    assert!(InputValidator::validate_shell_safe("test$(id)").is_err());
    assert!(InputValidator::validate_shell_safe("test|grep").is_err());
    assert!(InputValidator::validate_shell_safe("test'injection'").is_err());
    assert!(InputValidator::validate_shell_safe("test\"injection\"").is_err());
    assert!(InputValidator::validate_shell_safe("test<input").is_err());
    assert!(InputValidator::validate_shell_safe("test>output").is_err());

    assert!(InputValidator::validate_shell_safe("/etc/passwd").is_err());
    assert!(InputValidator::validate_shell_safe("rm -rf test").is_err());
    assert!(InputValidator::validate_shell_safe("wget malicious.com").is_err());
    assert!(InputValidator::validate_shell_safe("curl evil.com").is_err());
    assert!(InputValidator::validate_shell_safe("python exploit.py").is_err());
    assert!(InputValidator::validate_shell_safe("../../../etc/passwd").is_err());

    assert!(InputValidator::validate_shell_safe("").is_err());
    assert!(InputValidator::validate_shell_safe(&"a".repeat(1025)).is_err());
}

#[test]
fn other_validations() {
    assert!(InputValidator::validate_version_string("1.2.3").is_ok());
    assert!(InputValidator::validate_checksum("0123456789abcdef0123456789abcdef").is_ok());
    assert!(InputValidator::validate_checksum("abcdef0123456789").is_err());
    assert!(InputValidator::validate_checksum("xyz").is_err());
    assert!(InputValidator::validate_repository_url("https://example.com/repo").is_ok());
}
