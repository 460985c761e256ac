use omni::secure_executor::{ExecError, SecureExecutor};

#[test]
fn prepare_command_validates_then_sanitises() {
    let ex = SecureExecutor::new().unwrap();
    let ok = ex.prepare_command("apt", &["install", "vim"]).unwrap();
    assert_eq!(ok, vec!["install".to_string(), "vim".to_string()]);
    assert!(matches!(ex.prepare_command("rm", &["-rf", "/"]), Err(ExecError::CommandNotAllowed(c)) if c == "rm"));
    assert!(matches!(
        ex.prepare_command("pacman", &["-Rns", "vim"]),
        Err(ExecError::ArgumentNotAllowed(a, c)) if a == "-Rns" && c == "pacman"
    ));
    assert!(matches!(
        ex.prepare_command("apt", &["install", "vim; rm -rf /"]),
        Err(ExecError::DangerousCharacters(a)) if a == "vim; rm -rf /"
    ));
    assert!(matches!(ex.prepare_command("apt", &["install", "$(id)"]), Err(ExecError::CommandSubstitution(_))));
    assert!(matches!(ex.prepare_command("apt", &["install", "../etc"]), Err(ExecError::PathTraversal(_))));
}
