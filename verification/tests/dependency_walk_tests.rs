use omni::resolver::{
    apt_dependencies, apt_size, check_conflicts, dependency_command, dependency_query, dnf_dependencies,
    flatpak_dependencies, merge_dependencies, package_version, pacman_dependencies, parse_dependencies,
    select_best_box, size_command, size_query, total_size, version_command, version_source, Dependency,
    DependencyQuery, DependencySource, Resolution, SizeQuery, VersionSource,
};
use omni::search::SearchResult;

fn dep(name: &str, optional: bool, box_type: &str) -> Dependency {
    Dependency {
        name: name.to_string(),
        version_req: None,
        box_type: box_type.to_string(),
        optional,
        conflicts: vec![],
        provides: vec![],
    }
}

fn names(ds: &[Dependency]) -> Vec<(String, bool, String)> {
    ds.iter().map(|d| (d.name.clone(), d.optional, d.box_type.clone())).collect()
}

fn triple(n: &str, o: bool, b: &str) -> (String, bool, String) {
    (n.to_string(), o, b.to_string())
}

fn result(name: &str, box_type: &str) -> SearchResult {
    SearchResult {
        name: name.to_string(),
        description: None,
        version: None,
        box_type: box_type.to_string(),
        source: None,
        installed: false,
    }
}

#[test]
fn apt_depends_answer_is_read() {
    let out = "vim\n  Depends: libc6 (>= 2.34)\n  Depends: libgpm2\n  Recommends: xxd\n  Conflicts: vim-tiny\n  Suggests: ctags\n  Depends:\n";
    let ds = apt_dependencies(out);
    assert_eq!(
        names(&ds),
        vec![triple("libc6", false, "apt"), triple("libgpm2", false, "apt"), triple("xxd", true, "apt")]
    );
    assert_eq!(ds[2].conflicts, vec!["vim-tiny".to_string()]);
    assert!(ds[0].conflicts.is_empty());
    assert!(ds[0].version_req.is_none());
}

#[test]
fn conflicts_line_before_any_dependency_is_ignored() {
    let ds = apt_dependencies("  Conflicts: foo\n  Depends: bar\n");
    assert_eq!(names(&ds), vec![triple("bar", false, "apt")]);
    assert!(ds[0].conflicts.is_empty());
}

#[test]
fn dnf_requires_answer_is_filtered() {
    let out = "libc.so.6()(64bit)\n/bin/sh\nrpmlib-compat\nglibc\n  bash  \n\n";
    let ds = dnf_dependencies(out);
    assert_eq!(names(&ds), vec![triple("glibc", false, "dnf"), triple("bash", false, "dnf")]);
}

#[test]
fn pacman_info_answer_is_read_up_to_optional_deps() {
    let out = "Name            : vim\nDepends On      : vim-runtime  gpm  acl\nOptional Deps   : python: Python language support\nDepends On      : late\n";
    let ds = pacman_dependencies(out);
    assert_eq!(
        names(&ds),
        vec![
            triple("vim-runtime", false, "pacman"),
            triple("gpm", false, "pacman"),
            triple("acl", false, "pacman"),
            triple("python", true, "pacman"),
        ]
    );
    assert!(pacman_dependencies("Depends On      : None\n").is_empty());
}

#[test]
fn flatpak_runtime_is_the_dependency() {
    let ds = flatpak_dependencies("  org.gnome.Platform/x86_64/45\n");
    assert_eq!(names(&ds), vec![triple("org.gnome.Platform/x86_64/45", false, "flatpak")]);
    assert!(flatpak_dependencies("  \n").is_empty());
}

#[test]
fn failed_answer_gives_no_dependencies() {
    assert!(parse_dependencies(DependencySource::Apt, false, "  Depends: libc6\n").is_empty());
    assert_eq!(parse_dependencies(DependencySource::Dnf, true, "glibc\n").len(), 1);
}

#[test]
fn query_follows_the_manager() {
    assert_eq!(dependency_query(Some("apt")), DependencyQuery::Single(DependencySource::Apt));
    assert_eq!(dependency_query(Some("flatpak")), DependencyQuery::Single(DependencySource::Flatpak));
    assert_eq!(dependency_query(Some("snap")), DependencyQuery::Nothing);
    assert_eq!(dependency_query(Some("brew")), DependencyQuery::Every);
    assert_eq!(dependency_query(None), DependencyQuery::Every);
    let (p, a) = dependency_command(DependencySource::Dnf, "vim");
    assert_eq!(p, "dnf");
    assert_eq!(a, vec!["repoquery".to_string(), "--requires".to_string(), "vim".to_string()]);
}

#[test]
fn merged_answers_keep_the_first_of_each_name() {
    let all = vec![dep("a", false, "apt"), dep("b", true, "apt"), dep("a", false, "dnf")];
    let m = merge_dependencies(&all);
    assert_eq!(names(&m), vec![triple("a", false, "apt"), triple("b", true, "apt")]);
}

#[test]
fn conflicts_with_installed_packages_are_reported() {
    let mut d = dep("libx", false, "apt");
    d.conflicts = vec!["vim-tiny".to_string(), "nano".to_string()];
    let c = check_conflicts("vim", &vec![d], &vec!["nano".to_string(), "git".to_string()]);
    assert_eq!(c, vec!["Package vim conflicts with installed package nano".to_string()]);
}

#[test]
fn versions_are_read_from_each_manager() {
    assert_eq!(
        package_version("apt", Some((true, "vim:\n  Installed: (none)\n  Candidate: 9.0.1378-2\n"))),
        "9.0.1378-2"
    );
    // The field ends at the next colon, so an epoch is all that is kept.
    assert_eq!(package_version("apt", Some((true, "  Candidate: 2:9.0-1\n"))), "2");
    assert_eq!(package_version("apt", Some((true, "  Candidate: (none)\n"))), "unknown");
    assert_eq!(package_version("dnf", Some((true, "Name : vim\nVersion      : 9.0.2081\n"))), "9.0.2081");
    assert_eq!(package_version("pacman", Some((true, "Version         : 9.1-1\n"))), "9.1-1");
    assert_eq!(package_version("snap", Some((true, "name: x\ntracking:     latest/stable\n"))), "latest/stable");
    assert_eq!(package_version("snap", Some((false, ""))), "latest");
    assert_eq!(package_version("snap", None), "unknown");
    assert_eq!(package_version("flatpak", Some((true, "Version: 1.2.3\n"))), "1.2.3");
    assert_eq!(package_version("flatpak", Some((true, "Branch: stable\n"))), "latest");
    assert_eq!(package_version("dnf", Some((false, "Version : 1\n"))), "unknown");
    assert_eq!(package_version("brew", Some((true, "Version: 1\n"))), "unknown");
    assert_eq!(version_source("zypper"), None);
    assert_eq!(version_source("snap"), Some(VersionSource::Snap));
    let (p, a) = version_command(VersionSource::Apt, "vim");
    assert_eq!(p, "apt");
    assert_eq!(a, vec!["policy".to_string(), "vim".to_string()]);
}

#[test]
fn apt_size_takes_the_first_number() {
    assert_eq!(apt_size(true, "Package: vim\nSize: 1700 kB\nSize: 1234\n"), 1234);
    assert_eq!(apt_size(true, "Size: +42\n"), 42);
    assert_eq!(apt_size(true, "Size: 99999999999999999999\n"), 0);
    assert_eq!(apt_size(false, "Size: 1234\n"), 0);
    assert_eq!(size_query("dnf"), SizeQuery::Dnf);
    assert_eq!(size_query("snap"), SizeQuery::Unknown);
    assert!(size_command(SizeQuery::Unknown, "vim").is_none());
    let (p, a) = size_command(SizeQuery::Apt, "vim").unwrap();
    assert_eq!(p, "apt");
    assert_eq!(a, vec!["show".to_string(), "vim".to_string()]);
}

#[test]
fn total_size_counts_what_is_known() {
    assert_eq!(total_size(&vec![None, Some(3), Some(4)]), Some(7));
    assert_eq!(total_size(&vec![None]), None);
    assert_eq!(total_size(&vec![]), None);
    assert_eq!(total_size(&vec![Some(0)]), Some(0));
}

#[test]
fn best_box_prefers_native_managers() {
    let rs = vec![result("vim", "snap"), result("vim", "dnf"), result("vimx", "apt")];
    assert_eq!(select_best_box("vim", &rs, "apt"), "dnf");
    assert_eq!(select_best_box("emacs", &rs, "pacman"), "pacman");
    assert_eq!(select_best_box("vim", &vec![result("vim", "brew")], "apt"), "brew");
}

#[test]
fn walk_resolves_each_package_once_deepest_first() {
    let mut w = Resolution::start("app", None);
    let (n, b, d) = w.next_package().unwrap();
    assert_eq!((n.as_str(), b, d), ("app", None, 0));
    // Until something is recorded, the same package is current.
    assert_eq!(w.next_package().unwrap().0, "app");
    w.record(
        "apt",
        vec![dep("lib1", false, "apt"), dep("extra", true, "apt"), dep("lib2", false, "dnf")],
        &vec![],
        "1.0".to_string(),
    );
    let (n, b, d) = w.next_package().unwrap();
    assert_eq!((n.as_str(), b.as_deref(), d), ("lib1", Some("apt"), 1));
    w.record("ignored", vec![dep("lib2", false, "apt"), dep("app", false, "apt")], &vec![], "2".to_string());
    let (n, b, d) = w.next_package().unwrap();
    assert_eq!((n.as_str(), b.as_deref(), d), ("lib2", Some("dnf"), 1));
    w.record("ignored", vec![], &vec![], "3".to_string());
    assert!(w.next_package().is_none());
    let plan = w.finish();
    let got: Vec<(String, String, String, usize)> = plan
        .packages
        .iter()
        .map(|p| (p.name.clone(), p.box_type.clone(), p.version.clone(), p.install_order))
        .collect();
    assert_eq!(
        got,
        vec![
            ("lib2".to_string(), "dnf".to_string(), "3".to_string(), 1),
            ("lib1".to_string(), "apt".to_string(), "2".to_string(), 1),
            ("app".to_string(), "apt".to_string(), "1.0".to_string(), 0),
        ]
    );
    assert!(plan.conflicts.is_empty());
    assert!(plan.warnings.is_empty());
    assert!(plan.total_size.is_none());
}

#[test]
fn walk_reports_conflicts_and_skips_optional() {
    let mut w = Resolution::start("vim", Some("apt"));
    w.next_package();
    let mut d = dep("libx", true, "apt");
    d.conflicts = vec!["nano".to_string()];
    w.record("dnf", vec![d], &vec!["nano".to_string()], "9".to_string());
    assert!(w.next_package().is_none());
    let plan = w.finish();
    assert_eq!(plan.packages.len(), 1);
    assert_eq!(plan.packages[0].box_type, "apt");
    assert_eq!(plan.conflicts, vec!["Package vim conflicts with installed package nano".to_string()]);
}
