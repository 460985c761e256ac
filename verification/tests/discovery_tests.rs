use omni::discovery::{
    find_platform_package, get_entry, get_packages_by_category, has_security_issues, CrossPlatformMappings,
    CrossPlatformResponse, PopularPackage, PopularPackagesResponse, SecurityInfo, SecurityResponse,
};

fn s(x: &str) -> String {
    x.to_string()
}

fn mappings() -> CrossPlatformResponse {
    CrossPlatformResponse {
        version: s("1"),
        last_updated: s("2024-01-01"),
        mappings: vec![
            (s("firefox"), CrossPlatformMappings {
                linux: Some(vec![(s("apt"), vec![s("firefox"), s("firefox-esr")]), (s("snap"), vec![])]),
                macos: Some(vec![(s("brew"), vec![s("firefox")])]),
                windows: None,
            }),
        ],
        reverse_mappings: vec![
            (s("linux"), vec![(s("snap"), vec![(s("firefox"), s("firefox")), (s("code"), s("vscode"))])]),
        ],
    }
}

#[test]
fn direct_mapping_gives_first_name() {
    let m = mappings();
    assert_eq!(find_platform_package(&m, "firefox", "linux", "apt"), Some(s("firefox")));
    assert_eq!(find_platform_package(&m, "firefox", "macos", "brew"), Some(s("firefox")));
}

#[test]
fn empty_direct_list_gives_nothing() {
    let m = mappings();
    assert_eq!(find_platform_package(&m, "firefox", "linux", "snap"), None);
}

#[test]
fn reverse_mapping_is_the_fallback() {
    let m = mappings();
    assert_eq!(find_platform_package(&m, "code", "linux", "snap"), Some(s("vscode")));
    assert_eq!(find_platform_package(&m, "code", "linux", "apt"), None);
    assert_eq!(find_platform_package(&m, "firefox", "windows", "winget"), None);
    assert_eq!(find_platform_package(&m, "firefox", "plan9", "apt"), None);
}

#[test]
fn first_pair_with_the_key_wins() {
    let e = vec![(s("a"), 1u32), (s("b"), 2), (s("a"), 3)];
    assert_eq!(get_entry(&e, "a"), Some(&1));
    assert_eq!(get_entry(&e, "b"), Some(&2));
    assert_eq!(get_entry(&e, "c"), None);
}

fn pkg(rank: u32, name: &str, category: &str) -> PopularPackage {
    PopularPackage {
        rank,
        name: s(name),
        display_name: s(name),
        category: s(category),
        downloads_per_month: 10,
        search_frequency: 1,
        cross_platform: true,
    }
}

#[test]
fn packages_of_a_category_in_order() {
    let popular = PopularPackagesResponse {
        version: s("1"),
        last_updated: s("today"),
        total_packages: 3,
        popular_packages: vec![pkg(1, "firefox", "browser"), pkg(2, "vim", "editor"), pkg(3, "chromium", "browser")],
        categories: vec![],
    };
    let r = get_packages_by_category(&popular, "browser");
    let names: Vec<&str> = r.iter().map(|p| p.name.as_str()).collect();
    assert_eq!(names, vec!["firefox", "chromium"]);
    assert!(get_packages_by_category(&popular, "games").is_empty());
}

fn security() -> SecurityResponse {
    let info = |vulns: Vec<String>, cves: u32| SecurityInfo {
        last_audit: None,
        vulnerabilities: vulns,
        cve_count: cves,
        security_features: vec![],
    };
    SecurityResponse {
        version: s("1"),
        last_updated: s("today"),
        security_scores: vec![
            (s("openssl"), info(vec![], 3)),
            (s("curl"), info(vec![s("CVE-1")], 0)),
            (s("vim"), info(vec![], 0)),
        ],
        security_categories: vec![],
        vulnerability_alerts: vec![],
    }
}

#[test]
fn security_issues_from_cves_or_vulnerabilities() {
    let d = security();
    assert!(has_security_issues(Some(&d), "openssl"));
    assert!(has_security_issues(Some(&d), "curl"));
    assert!(!has_security_issues(Some(&d), "vim"));
    assert!(!has_security_issues(Some(&d), "unknown"));
    assert!(!has_security_issues(None, "openssl"));
}
