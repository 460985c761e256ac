use omni::advanced_resolver::{
    detect_conflicts, detect_cycles, requirement_matches, topological_sort, total_size, ConflictSpec,
    ConflictType, Dependency, DependencyType, GraphEdge, ResolvedPackage,
};

fn package(name: &str, version: &str) -> ResolvedPackage {
    ResolvedPackage {
        name: name.to_string(),
        version: version.to_string(),
        box_type: "apt".to_string(),
        dependencies: vec![],
        source_url: None,
        install_order: 0,
        size: Some(1024 * 1024),
        is_virtual: false,
        replaces: vec![],
    }
}

fn edge(from: &str, to: &str) -> GraphEdge {
    GraphEdge {
        from: from.to_string(),
        to: to.to_string(),
        dependency_type: DependencyType::Required,
        version_constraint: "*".to_string(),
    }
}

#[test]
fn test_version_requirement_parsing() {
    assert_eq!(requirement_matches(">=1.0.0, <2.0.0", "1.5.0"), Some(true));
    assert_eq!(requirement_matches(">=1.0.0, <2.0.0", "2.1.0"), Some(false));
}

#[test]
fn test_cycle_detection() {
    let nodes = vec!["A".to_string(), "B".to_string(), "C".to_string()];
    let edges = vec![edge("A", "B"), edge("B", "C"), edge("C", "A")];
    let cycles = detect_cycles(&nodes, &edges);
    assert!(!cycles.is_empty());
}

#[test]
fn no_cycle_in_a_chain() {
    let nodes = vec!["A".to_string(), "B".to_string()];
    let edges = vec![edge("A", "B")];
    assert!(detect_cycles(&nodes, &edges).is_empty());
}

#[test]
fn install_order_puts_dependencies_after_dependents_edges() {
    let ps = vec![package("app", "1.0.0"), package("lib", "1.0.0"), package("base", "1.0.0")];
    let edges = vec![edge("app", "lib"), edge("lib", "base")];
    let order = topological_sort(&ps, &edges);
    let names: Vec<&str> = order.iter().map(|p| p.name.as_str()).collect();
    assert_eq!(names, vec!["app", "lib", "base"]);
    assert_eq!(order[2].install_order, 2);
}

#[test]
fn install_order_leaves_out_cycles() {
    let ps = vec![package("a", "1.0.0"), package("b", "1.0.0"), package("c", "1.0.0")];
    let edges = vec![edge("a", "b"), edge("b", "a")];
    let order = topological_sort(&ps, &edges);
    let names: Vec<&str> = order.iter().map(|p| p.name.as_str()).collect();
    assert_eq!(names, vec!["c"]);
}

#[test]
fn conflicts_explicit_and_duplicate() {
    let mut app = package("app", "1.0.0");
    app.dependencies.push(Dependency {
        name: "lib".to_string(),
        version_req: "*".to_string(),
        box_type: "apt".to_string(),
        optional: false,
        conflicts: vec![ConflictSpec {
            package: "old".to_string(),
            version_range: "<2.0.0".to_string(),
            reason: "old is broken".to_string(),
        }],
        provides: vec![],
        alternatives: vec![],
    });
    let ps = vec![app, package("old", "1.5.0"), package("dup", "1.0.0"), package("dup", "2.0.0")];
    let reports = detect_conflicts(&ps);
    assert_eq!(reports.len(), 2);
    assert_eq!(reports[0].conflict_type, ConflictType::ExplicitConflict);
    assert_eq!(reports[0].package2, "old");
    assert_eq!(reports[0].suggested_resolution, Some("Remove old or choose a different version".to_string()));
    assert_eq!(reports[1].conflict_type, ConflictType::VersionIncompatible);
    assert_eq!(reports[1].description, "Multiple versions of dup requested");
}

#[test]
fn sizes_add_up() {
    let mut ps = vec![package("a", "1.0.0"), package("b", "1.0.0")];
    ps[1].size = None;
    assert_eq!(total_size(&ps), 1024 * 1024);
}
