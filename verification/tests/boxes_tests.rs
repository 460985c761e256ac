use omni::boxes::{
    apt_search_names, dpkg_installed, nix_installed_names, nix_json_names, nix_query_names, nix_search_step,
    remove_outcome, snap_names, AptManager, BoxKind, DnfBox, MasBox, MasInstall, NixBox, NixSearch, ScoopBox,
    SnapBox,
};

#[test]
fn box_commands() {
    let apt = AptManager::new().unwrap();
    let c = apt.install_command("vim");
    assert_eq!(c.program, "apt");
    assert_eq!(c.args, vec!["install", "-y", "vim"]);
    assert!(c.requires_sudo);
    assert_eq!(c.timeout_secs, 600);
    assert_eq!(apt.get_name(), "apt");
    assert_eq!(apt.get_priority(), 90);
    assert_eq!(apt.update_command().args, vec!["update"]);
    let nix = NixBox::new().unwrap();
    assert_eq!(nix.install_command("hello").args, vec!["-iA", "nixpkgs.hello"]);
    assert!(!nix.needs_privilege());
    let snap = SnapBox::new().unwrap();
    assert_eq!(snap.remove_command("vlc").args, vec!["remove", "vlc"]);
    let dnf = DnfBox::new().unwrap();
    assert_eq!(dnf.check_update_command().args, vec!["check-update"]);
}

#[test]
fn removal_failures() {
    assert!(remove_outcome(BoxKind::Brew, "x", 0, "").is_ok());
    assert!(remove_outcome(BoxKind::Brew, "x", 1, "err").is_err());
}

#[test]
fn output_parsers() {
    assert_eq!(
        apt_search_names("WARNING: apt does not have a stable CLI\nvim/jammy 2:8.2 amd64\nNOTE: x\nvim-gtk3/jammy 2:8.2 amd64\n"),
        vec!["vim", "vim-gtk3"]
    );
    assert_eq!(snap_names("Name Version\nvlc 3.0 x\n\nhello 2.10\n"), vec!["vlc", "hello"]);
    assert_eq!(snap_names(""), Vec::<String>::new());
    assert_eq!(
        nix_json_names("{\n  \"legacyPackages.x86_64-linux.hello\": {\n    \"pname\": \"hello\",\n    \"version\": \"2.12\"\n  }\n}\n"),
        vec!["hello"]
    );
    assert_eq!(nix_query_names("nixpkgs.hello  hello-2.12\nlonely\n"), vec!["hello"]);
    assert_eq!(nix_installed_names("hello-2.12\n\n  git-2.40 \n"), vec!["hello", "git"]);
    let pkgs = dpkg_installed("vim\t2:8.2\tinstall ok installed\nold\t1.0\tdeinstall ok config-files\nshort\n");
    assert_eq!(pkgs.len(), 1);
    assert_eq!(pkgs[0].name, "vim");
    assert_eq!(pkgs[0].version, "2:8.2");
}

#[test]
fn nix_search_steps() {
    assert!(matches!(nix_search_step(1, "anything"), NixSearch::Found(v) if v.is_empty()));
    assert!(matches!(nix_search_step(0, "{}"), NixSearch::Fallback));
    assert!(matches!(nix_search_step(0, "\"pname\": \"hello\","), NixSearch::Found(v) if v == vec!["hello".to_string()]));
}

#[test]
fn scoop_and_mas() {
    let scoop = ScoopBox::new().unwrap();
    assert_eq!(scoop.install_args("git"), vec!["install", "git"]);
    assert_eq!(scoop.install_failure("boom"), "scoop install failed: boom");
    let mas = MasBox::new().unwrap();
    assert!(mas.is_app_id("497799835"));
    assert!(!mas.is_app_id("Xcode"));
    assert!(matches!(mas.install_target("Xcode", Some("497799835 Xcode (15.0)\n")), MasInstall::Install(id) if id == "497799835"));
    assert!(matches!(mas.install_target("Xcode", Some("")), MasInstall::Refused(m) if m == "No app found for: Xcode"));
    assert!(matches!(mas.install_target("Xcode", None), MasInstall::Refused(m) if m == "Search failed for: Xcode"));
}

#[test]
fn app_ids_may_use_any_unicode_digits() {
    let mas = MasBox::new().unwrap();
    assert!(mas.is_app_id("٤٩٧"));
    assert!(!mas.is_app_id("12a"));
}
