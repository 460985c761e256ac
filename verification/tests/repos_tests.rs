use omni::repos::{add_repository, listed_repositories, remove_repository, Managers, RepoListing, RepoStep};

fn all_managers() -> Managers {
    Managers { apt: true, dnf: true, pacman: true, flatpak: true, add_apt_repository: true }
}

fn none() -> Managers {
    Managers { apt: false, dnf: false, pacman: false, flatpak: false, add_apt_repository: false }
}

fn describe(steps: &[RepoStep]) -> Vec<String> {
    steps
        .iter()
        .map(|s| match s {
            RepoStep::Run { program, args, sudo } => format!("{}{} {}", if *sudo { "sudo " } else { "" }, program, args.join(" ")),
            RepoStep::WriteFile { path, contents } => format!("write {} {:?}", path, contents),
        })
        .collect()
}

#[test]
fn ppa_is_added_then_refreshed() {
    let steps = add_repository("ppa:graphics-drivers/ppa", None, None, &none()).ok().unwrap();
    assert_eq!(describe(&steps), vec!["sudo add-apt-repository -y ppa:graphics-drivers/ppa", "sudo apt update"]);
}

#[test]
fn deb_source_with_key() {
    let steps = add_repository("deb http://example.com stable main", None, Some("http://example.com/key.gpg"), &all_managers()).ok().unwrap();
    assert_eq!(describe(&steps), vec![
        "sudo bash -c wget -qO - http://example.com/key.gpg | apt-key add -".to_string(),
        "write /etc/apt/sources.list.d/omni-added-repo.list \"deb http://example.com stable main\\n\"".to_string(),
        "sudo apt update".to_string(),
    ]);
}

#[test]
fn dnf_flatpak_and_refusals() {
    let m = Managers { apt: false, ..all_managers() };
    let steps = add_repository("https://x/y.repo", None, None, &m).ok().unwrap();
    assert_eq!(describe(&steps), vec!["sudo dnf config-manager --add-repo https://x/y.repo"]);
    assert_eq!(add_repository("custom", Some("arch"), None, &m).err().unwrap(), "Pacman repository addition not implemented - requires manual configuration");
    let steps = add_repository("https://flathub.org/repo/flathub.flatpakrepo", Some("flatpak"), None, &m).ok().unwrap();
    assert_eq!(describe(&steps), vec!["flatpak remote-add --if-not-exists omni-added-repo https://flathub.org/repo/flathub.flatpakrepo"]);
    assert_eq!(add_repository("whatever", None, None, &none()).err().unwrap(), "Unsupported repository type or package manager not available");
}

#[test]
fn removal_by_first_manager_at_hand() {
    let steps = remove_repository("ppa:x/y", &all_managers()).ok().unwrap();
    assert_eq!(describe(&steps), vec!["sudo add-apt-repository -y -r ppa:x/y"]);
    assert_eq!(remove_repository("deb x", &all_managers()).err().unwrap(), "APT repository removal not fully implemented");
    let m = Managers { apt: false, ..all_managers() };
    assert_eq!(describe(&remove_repository("fedora", &m).ok().unwrap()), vec!["sudo dnf config-manager --set-disabled fedora"]);
    let m = Managers { flatpak: true, ..none() };
    assert_eq!(describe(&remove_repository("flathub", &m).ok().unwrap()), vec!["flatpak remote-delete flathub"]);
    assert!(remove_repository("x", &none()).is_err());
}

#[test]
fn repository_listings() {
    let sources = "# comment\ndeb http://a stable main\ndeb-src http://a stable main\ndeb http://b x y\n";
    assert_eq!(listed_repositories(RepoListing::AptSources, sources), vec!["apt: deb http://a stable main", "apt: deb http://b x y"]);
    let dnf = "repo id repo name\nfedora Fedora 39\n\nupdates Updates\n";
    assert_eq!(listed_repositories(RepoListing::Dnf, dnf), vec!["dnf: fedora Fedora 39", "dnf: updates Updates"]);
    assert_eq!(listed_repositories(RepoListing::Flatpak, "flathub\n\n"), vec!["flatpak: flathub", "flatpak: "]);
}
