use omni::box_ops::{
    dnf_installed, emerge_list_fallback_command, info_command, info_outcome, installed_names, installed_version, list_command,
    list_failure, listing_names, search_command, search_failure, search_names, update_outcome, update_plan,
    version_command, ListingRule, UpdatePlan, VersionRule,
};
use omni::boxes::BoxKind;
use omni::error_handling::OmniError;

fn v(items: &[&str]) -> Vec<String> {
    items.iter().map(|s| s.to_string()).collect()
}

#[test]
fn dnf_search_and_list() {
    let out = "Last metadata expiration check: 0:10:00 ago.\n===== Name Matched: vim =====\nvim-enhanced.x86_64 : A version of the VIM editor\nvim-minimal.x86_64 : A minimal version\n";
    assert_eq!(search_names(BoxKind::Dnf, out), v(&["vim-enhanced", "vim-minimal"]));
    let list = "Installed Packages\nbash.x86_64 5.2.15-1.fc38 @anaconda\nvim.x86_64 9.0\n";
    assert_eq!(installed_names(BoxKind::Dnf, list), v(&["bash"]));
}

#[test]
fn pacman_search_and_list() {
    let out = "extra/firefox 120.0-1\n    Fast web browser\ncore/vim 9.0-1\n    Vi Improved\n";
    assert_eq!(search_names(BoxKind::Pacman, out), v(&["firefox", "vim"]));
    assert_eq!(installed_names(BoxKind::Pacman, "bash 5.2\nvim 9.0\n\n"), v(&["bash", "vim"]));
}

#[test]
fn zypper_tables() {
    let out = "S | Name | Summary\n--+------+--------\n| x | vim | Vi IMproved\ni | bash | shell | package\n";
    assert_eq!(search_names(BoxKind::Zypper, out), v(&["vim"]));
    assert_eq!(installed_names(BoxKind::Zypper, out), v(&["bash"]));
    assert_eq!(listing_names("| s | Name | x\n", ListingRule::ZypperSearch), Vec::<String>::new());
    assert_eq!(listing_names("| vim | Vi IMproved\n", ListingRule::ZypperSearch), v(&["Vi IMproved"]));
}

#[test]
fn flatpak_search_and_list() {
    let out = "Name Description Application\nFirefox Browser org.mozilla.firefox 120\nshort line\n";
    assert_eq!(search_names(BoxKind::Flatpak, out), v(&["org.mozilla.firefox"]));
    let list = "Name\tApplication ID\tVersion\nFirefox\torg.mozilla.firefox\t120\nlonely\n";
    assert_eq!(installed_names(BoxKind::Flatpak, list), v(&["org.mozilla.firefox"]));
}

#[test]
fn brew_and_choco() {
    assert_eq!(search_names(BoxKind::Brew, "==> Formulae\nwget\n  \nwget2\n"), v(&["wget", "wget2"]));
    assert_eq!(installed_names(BoxKind::Brew, " git \n\nnode\n"), v(&["git", "node"]));
    let choco = "Chocolatey v2.2.2\ngit | 2.43.0 | Approved\n3 packages found.\n";
    assert_eq!(search_names(BoxKind::Chocolatey, choco), v(&["git"]));
    let local = "Chocolatey v2.2.2\ngit 2.43.0\nnodejs 20.0\n2 packages installed.\n";
    assert_eq!(installed_names(BoxKind::Chocolatey, local), v(&["git", "nodejs"]));
}

#[test]
fn emerge_search_and_list() {
    let out = "*  app-editors/vim\n      Latest version available: 9.0\n*  *  dev-vcs/git [ Masked ]\n";
    assert_eq!(search_names(BoxKind::Emerge, out), v(&["vim", "git"]));
    assert_eq!(installed_names(BoxKind::Emerge, "app-editors/vim-9.0.1\nsys-apps/portage\nplain\n"), v(&["vim", "portage", "plain"]));
}

#[test]
fn winget_and_scoop() {
    let out = "Name Id Version\n------------\nGit Git.Git 2.43\nlonely\n";
    assert_eq!(search_names(BoxKind::Winget, out), v(&["Git"]));
    let scoop = "Results from local buckets...\nmain/git (2.43.0)\n'main' bucket:\n7zip (23.01)\n";
    assert_eq!(listing_names(scoop, ListingRule::ScoopSearch), v(&["git", "7zip"]));
    let list = "Installed apps:\nName Version Source\ngit 2.43.0 main\n";
    assert_eq!(listing_names(list, ListingRule::ScoopList), v(&["git"]));
}

#[test]
fn installed_versions() {
    assert_eq!(installed_version(VersionRule::Pacman, "vim", 0, "vim 9.0.1-1\n"), Some("9.0.1-1".to_string()));
    assert_eq!(installed_version(VersionRule::Pacman, "vim", 1, "vim 9.0.1-1\n"), None);
    assert_eq!(installed_version(VersionRule::Pacman, "vim", 0, "   \n"), None);
    let snap = "Name Version Rev\nvlc 3.0.20 3777 latest/stable\n";
    assert_eq!(installed_version(VersionRule::Snap, "vlc", 0, snap), Some("3.0.20".to_string()));
    let flat = "Firefox\t120.0\n";
    assert_eq!(installed_version(VersionRule::Flatpak, "Firefox", 0, flat), Some("120.0".to_string()));
    assert_eq!(installed_version(VersionRule::Emerge, "vim", 0, "app-editors/vim-9.0.1\n"), Some("9.0.1".to_string()));
    let winget = "Name Id Version\n-------------\nGit Git.Git 2.43.0 winget\n";
    assert_eq!(installed_version(VersionRule::Winget, "Git.Git", 0, winget), Some("2.43.0".to_string()));
    let scoop = "Name Version\n----\ngit 2.43.0\n";
    assert_eq!(installed_version(VersionRule::Scoop, "git", 0, scoop), Some("2.43.0".to_string()));
    assert_eq!(installed_version(VersionRule::NixEnv, "hello", 0, "hello-2.12.1\n"), Some("2.12.1".to_string()));
    assert_eq!(installed_version(VersionRule::NixEnv, "hello", 0, "hello\n"), None);
    let profile = "0 flake:nixpkgs#hello /nix/store/abc-hello-2.12.1\n";
    assert_eq!(installed_version(VersionRule::NixProfile, "hello", 0, profile), Some("2.12.1".to_string()));
}

#[test]
fn commands_per_box() {
    let c = search_command(BoxKind::Zypper, "vim");
    assert_eq!((c.program.as_str(), c.args.clone(), c.requires_sudo, c.timeout_secs), ("zypper", v(&["search", "vim"]), false, 60));
    let c = list_command(BoxKind::Apt);
    assert_eq!(c.program, "dpkg-query");
    assert_eq!(c.args, v(&["-W", "--showformat=${Package}\t${Version}\t${Status}\n"]));
    let c = info_command(BoxKind::Nix, "hello");
    assert_eq!(c.args, v(&["show-derivation", "nixpkgs#hello"]));
    let c = emerge_list_fallback_command();
    assert_eq!(c.args, v(&["--list"]));
    let (c, rule) = version_command(BoxKind::Winget, "Git.Git").unwrap();
    assert_eq!(c.args, v(&["list", "--exact", "--id", "Git.Git"]));
    assert_eq!(rule, VersionRule::Winget);
    assert!(version_command(BoxKind::Apt, "vim").is_none());
}

#[test]
fn update_plans() {
    assert!(matches!(update_plan(BoxKind::Apt, Some("vim")), UpdatePlan::InstallPackage));
    match update_plan(BoxKind::Brew, None) {
        UpdatePlan::Run(cs) => {
            assert_eq!(cs.len(), 2);
            assert_eq!(cs[0].args, v(&["update"]));
            assert_eq!(cs[1].args, v(&["upgrade"]));
            assert_eq!(cs[1].timeout_secs, 1200);
        },
        UpdatePlan::InstallPackage => panic!("brew updates by running commands"),
    }
    match update_plan(BoxKind::Emerge, None) {
        UpdatePlan::Run(cs) => {
            assert_eq!(cs[0].args, v(&["--update", "--deep", "--newuse", "--ask", "n", "@world"]));
            assert!(cs[0].requires_sudo);
            assert_eq!(cs[0].timeout_secs, 7200);
        },
        UpdatePlan::InstallPackage => panic!("emerge updates by running commands"),
    }
    match update_plan(BoxKind::Chocolatey, None) {
        UpdatePlan::Run(cs) => assert_eq!(cs[0].args, v(&["upgrade", "all", "-y"])),
        UpdatePlan::InstallPackage => panic!("choco updates by running commands"),
    }
}

fn failure(e: OmniError) -> (String, String, String) {
    match e {
        OmniError::InstallationFailed { package, box_type, reason } => (package, box_type, reason),
        _ => panic!("not an installation failure"),
    }
}

#[test]
fn failures_are_worded_per_box() {
    assert!(update_outcome(BoxKind::Dnf, None, 0, "").is_ok());
    assert_eq!(failure(update_outcome(BoxKind::Dnf, None, 1, "boom").unwrap_err()), ("all".into(), "dnf".into(), "Update failed: boom".into()));
    assert_eq!(failure(update_outcome(BoxKind::Emerge, None, 1, "x").unwrap_err()).0, "world");
    assert_eq!(failure(update_outcome(BoxKind::Apt, None, 1, "x").unwrap_err()), ("cache".into(), "apt".into(), "Cache update failed: x".into()));
    assert_eq!(failure(update_outcome(BoxKind::Snap, Some("vlc"), 1, "x").unwrap_err()), ("vlc".into(), "snap".into(), "x".into()));
    assert_eq!(failure(list_failure(BoxKind::Pacman, "e")), ("list".into(), "pacman".into(), "List failed: e".into()));
    assert_eq!(failure(list_failure(BoxKind::Flatpak, "e")).2, "e");
    assert!(search_failure(BoxKind::Dnf, "vim", "e").is_none());
    assert_eq!(failure(search_failure(BoxKind::Chocolatey, "vim", "e").unwrap()), ("vim".into(), "chocolatey".into(), "e".into()));
    assert_eq!(info_outcome(BoxKind::Apt, "vim", 0, "Package: vim", "").ok(), Some("Package: vim".to_string()));
    assert!(matches!(info_outcome(BoxKind::Apt, "vim", 100, "", "no"), Err(OmniError::PackageNotFound { .. })));
    assert_eq!(failure(info_outcome(BoxKind::Snap, "vlc", 1, "", "err").err().unwrap()), ("vlc".into(), "snap".into(), "err".into()));
}

#[test]
fn dnf_installed_packages_with_versions() {
    let out = "Installed Packages\nbash.x86_64 5.2.15-1.fc38 @anaconda\nshort.x86_64 1.0\nvim-common.noarch 2:9.0 @updates\n";
    let r = dnf_installed(out);
    let got: Vec<(String, String)> = r.iter().map(|p| (p.name.clone(), p.version.clone())).collect();
    assert_eq!(got, vec![("bash".to_string(), "5.2.15-1.fc38".to_string()), ("vim-common".to_string(), "2:9.0".to_string())]);
    assert!(r.iter().all(|p| p.description.is_none()));
}
