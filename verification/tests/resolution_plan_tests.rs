use omni::advanced_resolver_v2::{
    analyze_package, detect_conflicts, estimate_installation_time, estimate_total_size,
    generate_recommendations, get_package_dependencies, plan_actions, ActionType,
    AdvancedDependencyResolver, Impact, PackageAction, ResolutionStrategy,
};

fn names(actions: &[PackageAction]) -> Vec<String> {
    actions.iter().map(|a| a.package.clone()).collect()
}

fn requested(list: &[&str]) -> Vec<String> {
    list.iter().map(|s| s.to_string()).collect()
}

#[test]
fn dependencies_follow_name_patterns() {
    assert_eq!(
        get_package_dependencies("python3"),
        vec!["python3-pip".to_string(), "python3-setuptools".to_string()]
    );
    assert_eq!(get_package_dependencies("nodejs"), vec!["npm".to_string()]);
    assert_eq!(
        get_package_dependencies("docker-ce"),
        vec!["containerd".to_string(), "runc".to_string()]
    );
    assert_eq!(
        get_package_dependencies("git"),
        vec!["curl".to_string(), "ca-certificates".to_string()]
    );
    assert!(get_package_dependencies("vim").is_empty());
}

#[test]
fn analyzed_package_is_an_install() {
    let a = analyze_package("nodejs");
    assert_eq!(a.package, "nodejs");
    assert_eq!(a.action, ActionType::Install);
    assert!(a.version.is_none());
    assert_eq!(a.reason, "User requested");
    assert_eq!(a.dependencies, vec!["npm".to_string()]);
}

#[test]
fn plan_holds_requested_and_their_dependencies_once() {
    let plan = plan_actions(&requested(&["git", "vim", "git"]));
    let got = names(&plan);
    assert_eq!(got, requested(&["git", "vim", "curl", "ca-certificates"]));
    assert_eq!(plan[0].dependencies, requested(&["curl", "ca-certificates"]));
    assert!(plan[1].dependencies.is_empty());
}

#[test]
fn plan_follows_dependencies_of_dependencies() {
    // "python3-pip" itself mentions python, so its dependencies are followed too.
    let plan = plan_actions(&requested(&["python3"]));
    assert_eq!(
        names(&plan),
        requested(&["python3", "python3-pip", "python3-setuptools"])
    );
}

#[test]
fn empty_request_gives_empty_plan() {
    let r = AdvancedDependencyResolver::new();
    let plan = r.create_resolution_plan(&vec![]);
    assert!(plan.packages.is_empty());
    assert!(plan.conflicts.is_empty());
    assert_eq!(plan.recommendations.len(), 1);
    assert_eq!(plan.total_size, 0);
    assert_eq!(plan.estimated_time, 0);
}

#[test]
fn conflicting_runtimes_are_reported() {
    let plan = plan_actions(&requested(&["docker", "podman", "python2", "python3"]));
    let c = detect_conflicts(&plan);
    assert_eq!(c.len(), 2);
    assert_eq!(c[0].packages, requested(&["python2", "python3"]));
    assert_eq!(c[0].reason, "Python 2 and Python 3 may conflict in some configurations");
    assert_eq!(c[0].suggestions, requested(&["Consider using only Python 3"]));
    assert_eq!(c[1].packages, requested(&["docker", "podman"]));
    assert_eq!(c[1].suggestions, requested(&["Choose one container runtime"]));
    let none = detect_conflicts(&plan_actions(&requested(&["docker"])));
    assert!(none.is_empty());
}

#[test]
fn recommendations_follow_strategy_and_dev_packages() {
    let plan = plan_actions(&requested(&["libfoo-dev", "vim"]));
    let r = generate_recommendations(ResolutionStrategy::Security, &plan);
    assert_eq!(r.len(), 2);
    assert_eq!(r[0].message, "Prioritizing security updates - recommended for production");
    assert_eq!(r[0].confidence_percent, 95);
    assert_eq!(r[0].impact, Impact::High);
    assert_eq!(r[1].message, "Package 'libfoo-dev' appears to be a development tool");
    assert_eq!(r[1].confidence_percent, 80);
    assert_eq!(r[1].impact, Impact::Low);
    let latest = generate_recommendations(ResolutionStrategy::Latest, &vec![]);
    assert_eq!(latest[0].confidence_percent, 70);
    assert_eq!(latest[0].impact, Impact::Medium);
}

#[test]
fn size_and_time_estimates() {
    let plan = plan_actions(&requested(&["linux-kernel", "gcc", "vim"]));
    assert_eq!(estimate_total_size(&plan), 200_000_000 + 150_000_000 + 10_000_000);
    assert_eq!(estimate_installation_time(&plan), 300 + 180 + 30);
    let docker = plan_actions(&requested(&["docker"]));
    // docker, containerd, runc
    assert_eq!(estimate_total_size(&docker), 100_000_000 + 10_000_000 + 10_000_000);
    assert_eq!(estimate_installation_time(&docker), 120 + 30 + 30);
}

#[test]
fn full_plan_with_strategy() {
    let r = AdvancedDependencyResolver::new().with_strategy(ResolutionStrategy::Performance);
    assert_eq!(r.strategy, ResolutionStrategy::Performance);
    let plan = r.create_resolution_plan(&requested(&["nodejs"]));
    assert_eq!(names(&plan.packages), requested(&["nodejs", "npm"]));
    assert!(plan.conflicts.is_empty());
    assert_eq!(plan.recommendations[0].message, "Optimizing for performance - may use more resources");
    assert_eq!(plan.total_size, 80_000_000 + 10_000_000);
    assert_eq!(plan.estimated_time, 60);
}
