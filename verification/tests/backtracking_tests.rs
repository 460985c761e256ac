use omni::advanced_resolver::{
    AdvancedDependencyResolver, DependencyGraph, ResolutionState, ResolutionStrategy, ResolveError, ResolvedPackage,
};
use omni::error_handling::OmniError;

fn version(name: &str, v: &str, deps: usize) -> ResolvedPackage {
    let mut p = ResolvedPackage {
        name: name.to_string(),
        version: v.to_string(),
        box_type: "apt".to_string(),
        dependencies: vec![],
        source_url: None,
        install_order: 0,
        size: None,
        is_virtual: false,
        replaces: vec![],
    };
    for i in 0..deps {
        p.dependencies.push(omni::advanced_resolver::Dependency {
            name: format!("d{}", i),
            version_req: "*".to_string(),
            box_type: "apt".to_string(),
            optional: false,
            conflicts: vec![],
            provides: vec![],
            alternatives: vec![],
        });
    }
    p
}

fn empty_graph() -> DependencyGraph {
    DependencyGraph { nodes: vec![], edges: vec![] }
}

fn message(e: ResolveError) -> String {
    match e {
        ResolveError::Other(m) => m,
        ResolveError::Failed(OmniError::InstallationFailed { package, box_type, reason }) => {
            format!("{}|{}|{}", package, box_type, reason)
        },
        ResolveError::Failed(_) => "other failure".to_string(),
    }
}

#[test]
fn offered_version_is_the_mock() {
    let r = AdvancedDependencyResolver::new(ResolutionStrategy::Latest);
    assert_eq!(r.max_depth, 50);
    let v = r.get_available_versions("curl");
    assert_eq!(v.len(), 1);
    assert_eq!(v[0].name, "curl");
    assert_eq!(v[0].version, "1.0.0");
    assert_eq!(v[0].size, Some(1024 * 1024));
}

#[test]
fn best_version_by_strategy() {
    let versions = || vec![version("a", "1.0.0", 2), version("a", "2.0.0", 3), version("a", "1.5.0", 0)];
    let latest = AdvancedDependencyResolver::new(ResolutionStrategy::Latest);
    assert_eq!(latest.select_best_version(versions(), None).ok().unwrap().version, "2.0.0");
    assert_eq!(latest.select_best_version(versions(), Some("<2.0")).ok().unwrap().version, "1.5.0");
    let conservative = AdvancedDependencyResolver::new(ResolutionStrategy::Conservative);
    assert_eq!(conservative.select_best_version(versions(), None).ok().unwrap().version, "1.0.0");
    let minimal = AdvancedDependencyResolver::new(ResolutionStrategy::Minimal);
    assert_eq!(minimal.select_best_version(versions(), None).ok().unwrap().version, "1.5.0");
    let guided = AdvancedDependencyResolver::new(ResolutionStrategy::UserGuided);
    assert_eq!(guided.select_best_version(versions(), None).ok().unwrap().version, "2.0.0");
    assert_eq!(message(latest.select_best_version(vec![], None).err().unwrap()), "No versions available");
    assert_eq!(
        message(latest.select_best_version(versions(), Some(">=3")).err().unwrap()),
        "No versions satisfy constraints"
    );
}

#[test]
fn plan_holds_each_requested_package_once() {
    let r = AdvancedDependencyResolver::new(ResolutionStrategy::Latest);
    let names = vec!["a".to_string(), "b".to_string(), "a".to_string()];
    let plan = r.resolve_dependencies(&names, &vec![]).ok().unwrap();
    let got: Vec<(String, usize)> = plan.packages.iter().map(|p| (p.name.clone(), p.install_order)).collect();
    assert_eq!(got.len(), 2);
    let mut sorted: Vec<String> = got.iter().map(|(n, _)| n.clone()).collect();
    sorted.sort();
    assert_eq!(sorted, vec!["a".to_string(), "b".to_string()]);
    assert_eq!(got[0].1, 0);
    assert_eq!(got[1].1, 1);
    assert!(plan.conflicts.is_empty());
    assert!(plan.warnings.is_empty());
    assert_eq!(plan.total_size, Some(2 * 1024 * 1024));
    assert_eq!(plan.dependency_graph.nodes.len(), 2);
    assert!(plan.dependency_graph.edges.is_empty());
    assert_eq!(plan.resolution_strategy, ResolutionStrategy::Latest);
}

#[test]
fn unmet_requirement_fails_resolution() {
    let r = AdvancedDependencyResolver::new(ResolutionStrategy::Conservative);
    let names = vec!["a".to_string(), "b".to_string()];
    let bad = vec![("b".to_string(), ">=2.0".to_string())];
    assert_eq!(message(r.resolve_dependencies(&names, &bad).err().unwrap()), "No versions satisfy constraints");
    let good = vec![("b".to_string(), "^1.0".to_string())];
    assert_eq!(r.resolve_dependencies(&names, &good).ok().unwrap().packages.len(), 2);
}

#[test]
fn dependency_resolution_steps() {
    let r = AdvancedDependencyResolver::new(ResolutionStrategy::Conservative);
    let mut g = empty_graph();
    let mut st = ResolutionState::new();
    assert_eq!(r.resolve_dependency(&mut g, &mut st, "b", "*", "apt", false, 1).ok(), Some(true));
    assert_eq!(g.nodes.len(), 1);
    assert_eq!(g.nodes[0].depth, 1);
    assert!(!g.nodes[0].is_root);
    assert_eq!(st.selected_packages.len(), 1);
    assert_eq!(r.resolve_dependency(&mut g, &mut st, "b", "^1", "apt", false, 2).ok(), Some(false));
    assert_eq!(
        message(r.resolve_dependency(&mut g, &mut st, "b", "2.0", "apt", false, 2).err().unwrap()),
        "b|apt|Version conflict: need ^2.0 but have 1.0.0"
    );
    assert_eq!(r.resolve_dependency(&mut g, &mut st, "b", ">=2", "apt", true, 2).ok(), Some(false));
    assert_eq!(st.warnings, vec!["Skipping optional dependency b due to version conflict".to_string()]);
    assert_eq!(
        message(r.resolve_dependency(&mut g, &mut st, "c", ">=2", "dnf", false, 1).err().unwrap()),
        "c|dnf|No version satisfies requirement: >=2"
    );
    assert_eq!(st.selected_packages.len(), 1);
}

#[test]
fn latest_strategy_upgrades_on_conflict() {
    let r = AdvancedDependencyResolver::new(ResolutionStrategy::Latest);
    let mut st = ResolutionState::new();
    assert_eq!(r.resolve_version_conflict(&mut st, "a", "^1", "apt", false, "0.5.0").ok(), Some(true));
    assert_eq!(st.selected_packages.len(), 1);
    assert_eq!(st.warnings, vec!["Upgraded a from 0.5.0 to 1.0.0 to resolve conflict".to_string()]);
    assert_eq!(
        message(r.resolve_version_conflict(&mut st, "a", "^2", "apt", false, "1.0.0").err().unwrap()),
        "a|apt|Unresolvable version conflict"
    );
    let minimal = AdvancedDependencyResolver::new(ResolutionStrategy::Minimal);
    assert_eq!(
        message(minimal.resolve_version_conflict(&mut st, "a", "^2", "apt", true, "1.0.0").err().unwrap()),
        "a|apt|Unresolvable version conflict"
    );
}

#[test]
fn alternatives_are_tried_in_turn() {
    let r = AdvancedDependencyResolver::new(ResolutionStrategy::Conservative);
    let mut g = empty_graph();
    let mut st = ResolutionState::new();
    let alts = vec!["x".to_string(), "y".to_string()];
    assert_eq!(r.try_alternatives(&mut g, &mut st, &alts, "*", "apt", false, 1).ok(), Some(Some("x".to_string())));
    assert_eq!(r.try_alternatives(&mut g, &mut st, &alts, ">=5", "apt", false, 1).ok(), Some(None));
}

#[test]
fn walk_returns_the_chosen_packages() {
    let r = AdvancedDependencyResolver::new(ResolutionStrategy::Latest);
    let mut g = empty_graph();
    let mut st = ResolutionState::new();
    assert!(r.add_root_package(&mut g, &mut st, "a", &vec![]).is_ok());
    assert!(r.add_root_package(&mut g, &mut st, "b", &vec![]).is_ok());
    assert!(g.nodes.iter().all(|n| n.is_root && n.depth == 0));
    let got = r.resolve_with_backtracking(&mut g, &mut st).ok().unwrap();
    let names: Vec<String> = got.iter().map(|p| p.name.clone()).collect();
    assert_eq!(names, vec!["a".to_string(), "b".to_string()]);
}
