use omni::brain::{
    auto_install_choice, confirms, install_preflight, installed_version, manifest_action, manifest_fallback,
    removal_candidates, removal_plan, secure_install_plan, undo_action, vendor_drivers, FallbackAction,
    ManifestAction, RemovalPlan, Runner, UndoAction,
};
use omni::database::InstallStatus;
use omni::manifest::OmniApp;

#[test]
fn secure_install_plans() {
    let p = secure_install_plan("apt", "vim", true, false, true).unwrap();
    assert_eq!(p.program, "apt");
    assert_eq!(p.args, vec!["install", "-y", "vim"]);
    assert_eq!(p.runner, Runner::Sudo);
    let q = secure_install_plan("pacman", "vim", true, true, false).unwrap();
    assert_eq!(q.args, vec!["-S", "--noconfirm", "vim"]);
    assert_eq!(q.runner, Runner::Sandbox);
    assert_eq!(
        secure_install_plan("dnf", "vim", true, false, false).err(),
        Some("sudo access required for dnf installation".to_string())
    );
    assert_eq!(secure_install_plan("flatpak", "x", true, false, false).unwrap().runner, Runner::Sandbox);
    assert_eq!(
        secure_install_plan("apt", "vim", false, true, true).err(),
        Some("Box type 'apt' not available or not supported".to_string())
    );
}

#[test]
fn versions_from_answers() {
    assert_eq!(installed_version("apt", Some(" 1.2.3\n")), "1.2.3");
    assert_eq!(installed_version("apt", Some("  ")), "unknown");
    assert_eq!(installed_version("snap", Some("Name Version Rev\nvlc 3.0.18 3078 latest\n")), "3.0.18");
    assert_eq!(installed_version("brew", Some("1.0")), "unknown");
    assert_eq!(installed_version("dnf", None), "unknown");
}

#[test]
fn automatic_choices() {
    assert_eq!(auto_install_choice(&vec!["flatpak", "pacman"]), Some("pacman"));
    assert_eq!(auto_install_choice(&vec![]), None);
    assert_eq!(removal_candidates(&vec!["snap", "apt"]), vec!["apt", "snap", "appimage"]);
}

#[test]
fn removal_plans() {
    match removal_plan("pacman", "vim", true).unwrap() {
        RemovalPlan::Command { program, args, failure } => {
            assert_eq!(program, "pacman");
            assert_eq!(args, vec!["-Rs", "--noconfirm", "vim"]);
            assert_eq!(failure, "Failed to remove package via pacman");
        },
        _ => panic!("expected a command"),
    }
    assert!(matches!(removal_plan("snap", "vim", true), Ok(RemovalPlan::SnapBox)));
    assert!(matches!(removal_plan("appimage", "vim", false), Ok(RemovalPlan::AppImage)));
    assert!(removal_plan("snap", "vim", false).is_err());
}

#[test]
fn manifest_steps() {
    let app = OmniApp {
        name: "gimp".to_string(),
        box_type: "flatpak".to_string(),
        version: None,
        source: Some("org.gimp.GIMP".to_string()),
    };
    match manifest_action(&app, true) {
        ManifestAction::WithBox { manager, package } => {
            assert_eq!(manager, "flatpak");
            assert_eq!(package, "org.gimp.GIMP");
        },
        _ => panic!("expected a box"),
    }
    assert!(matches!(manifest_action(&app, false), ManifestAction::Unhandled));
    assert!(matches!(manifest_fallback(false, "apt", true), FallbackAction::Disabled));
    assert!(matches!(manifest_fallback(true, "apt", true), FallbackAction::WithBox { .. }));
    assert!(matches!(manifest_fallback(true, "zypper", true), FallbackAction::Unsupported { .. }));
}

#[test]
fn answers_and_drivers() {
    assert!(confirms("  Yes\n"));
    assert!(!confirms("no"));
    assert!(!confirms(""));
    assert_eq!(vendor_drivers("DELL"), vec!["dell-smbios", "dcdbas", "dell-wmi"]);
    assert_eq!(vendor_drivers("acme"), vec!["ipmi_si", "ipmi_devintf", "firmware-misc-nonfree"]);
    assert_eq!(undo_action(InstallStatus::Success), Ok(UndoAction::Remove));
    assert_eq!(undo_action(InstallStatus::Removed), Ok(UndoAction::Reinstall));
    assert_eq!(undo_action(InstallStatus::Failed), Err("Cannot undo operation with status: Failed".to_string()));
    assert!(install_preflight("firefox", Some("apt")).is_ok());
    assert!(install_preflight("firefox", Some("yum")).is_err());
    assert!(install_preflight("../x", None).is_err());
}
