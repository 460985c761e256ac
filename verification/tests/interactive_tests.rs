use omni::interactive::confirmation_of;
use omni::resolver::{Dependency, ResolutionPlan, ResolvedPackage};

fn pkg(name: &str, optional_dep: bool) -> ResolvedPackage {
    let deps = if optional_dep {
        vec![Dependency {
            name: "extra".to_string(),
            version_req: None,
            box_type: "apt".to_string(),
            optional: true,
            conflicts: vec![],
            provides: vec![],
        }]
    } else {
        vec![]
    };
    ResolvedPackage {
        name: name.to_string(),
        version: "1.0".to_string(),
        box_type: "apt".to_string(),
        dependencies: deps,
        source_url: None,
        install_order: 0,
    }
}

fn plan(packages: Vec<ResolvedPackage>, conflicts: Vec<String>) -> ResolutionPlan {
    ResolutionPlan { packages, conflicts, warnings: vec![], total_size: None }
}

#[test]
fn empty_plan_proceeds_with_nothing() {
    let r = confirmation_of(&plan(vec![], vec![]), None, true, &vec![]);
    assert!(!r.proceed);
    assert!(r.selected_packages.is_empty());
    assert!(!r.skip_verification);
}

#[test]
fn confirmed_plan_selects_required_then_chosen_optional() {
    let p = plan(vec![pkg("app", false), pkg("plugin-a", true), pkg("lib", false), pkg("plugin-b", true)], vec![]);
    let r = confirmation_of(&p, None, true, &vec![1]);
    assert!(r.proceed);
    assert_eq!(r.selected_packages, vec!["app", "lib", "plugin-b"]);
    let declined = confirmation_of(&p, None, false, &vec![1]);
    assert!(!declined.proceed);
    assert!(declined.selected_packages.is_empty());
}

#[test]
fn conflict_choices() {
    let p = plan(vec![pkg("app", false)], vec!["app conflicts with old-app".to_string()]);
    let abort = confirmation_of(&p, Some(0), true, &vec![]);
    assert!(!abort.proceed);
    let force = confirmation_of(&p, Some(1), true, &vec![]);
    assert!(force.proceed);
    assert_eq!(force.selected_packages, vec!["app"]);
    let force_declined = confirmation_of(&p, Some(1), false, &vec![]);
    assert!(!force_declined.proceed);
    let alternatives = confirmation_of(&p, Some(2), true, &vec![]);
    assert!(!alternatives.proceed);
    assert_eq!(alternatives.selected_packages, vec!["__show_alternatives__"]);
    let unknown = confirmation_of(&p, Some(7), true, &vec![]);
    assert!(!unknown.proceed);
}
