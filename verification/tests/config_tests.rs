use omni::branding::OmniBranding;
use omni::config::OmniConfig;

#[test]
fn config_defaults_and_updates() {
    let mut c = OmniConfig::default();
    assert_eq!(c.general.max_parallel_jobs, 4);
    assert_eq!(c.general.log_level, "info");
    assert_eq!(c.get_box_priority("apt"), Some(0));
    assert_eq!(c.get_box_priority("nix"), None);
    assert!(c.is_box_enabled("snap"));
    c.set_box_enabled("snap", false);
    assert!(!c.is_box_enabled("snap"));
    c.set_box_enabled("snap", true);
    assert!(c.is_box_enabled("snap"));
    assert!(c.set_general_option("max_parallel_jobs", "8").is_ok());
    assert_eq!(c.general.max_parallel_jobs, 8);
    assert!(c.set_general_option("max_parallel_jobs", "lots").is_err());
    assert!(c.set_general_option("no_such_option", "1").is_err());
    c.remove_preferred_box("apt");
    assert_eq!(c.get_box_priority("apt"), None);
    c.add_preferred_box("apt".to_string());
    assert_eq!(c.get_box_priority("apt"), Some(5));
}

#[test]
fn branding_is_fixed_text() {
    assert!(!OmniBranding::logo().is_empty());
    assert!(!OmniBranding::mini_logo().is_empty());
    assert!(!OmniBranding::welcome_banner().is_empty());
}
