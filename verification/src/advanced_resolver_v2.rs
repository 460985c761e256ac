//! Resolution plans by package name patterns: the dependencies assumed for
//! well-known packages, the conflicts among them, advice, and estimates of
//! size and time.
use vstd::prelude::*;
use crate::text::{concat3, has_sub, owned, str_contains, text_eq, texts};

verus! {

/// What resolution favours.
#[derive(Debug, Clone, Copy, PartialEq, Eq, Structural)]
pub enum ResolutionStrategy {
    Conservative,
    Latest,
    Security,
    Performance,
}

/// What is done to a package.
#[derive(Debug, Clone, Copy, PartialEq, Eq, Structural)]
pub enum ActionType {
    Install,
    Upgrade,
    Downgrade,
    Remove,
    Keep,
}

/// How much a recommendation matters.
#[derive(Debug, Clone, Copy, PartialEq, Eq, Structural)]
pub enum Impact {
    Low,
    Medium,
    High,
    Critical,
}

/// An action on a package.
#[derive(Debug, Clone)]
pub struct PackageAction {
    pub package: String,
    pub action: ActionType,
    pub version: Option<String>,
    pub reason: String,
    pub dependencies: Vec<String>,
}

/// Packages that may not go together.
#[derive(Debug, Clone)]
pub struct Conflict {
    pub packages: Vec<String>,
    pub reason: String,
    pub suggestions: Vec<String>,
}

/// A piece of advice, with the confidence in it in percent.
#[derive(Debug, Clone)]
pub struct Recommendation {
    pub message: String,
    pub confidence_percent: u8,
    pub impact: Impact,
}

/// The dependencies assumed for a package, by what its name contains.
pub open spec fn assumed_dependencies(p: Seq<char>) -> Seq<Seq<char>> {
    if has_sub(p, "python"@) {
        seq!["python3-pip"@, "python3-setuptools"@]
    } else if has_sub(p, "node"@) {
        seq!["npm"@]
    } else if has_sub(p, "docker"@) {
        seq!["containerd"@, "runc"@]
    } else if has_sub(p, "git"@) {
        seq!["curl"@, "ca-certificates"@]
    } else {
        Seq::empty()
    }
}

/// The dependencies assumed for `package`.
pub fn get_package_dependencies(package: &str) -> (r: Vec<String>)
    ensures
        texts(r@) == assumed_dependencies(package@),
{
    let r: Vec<String> = if str_contains(package, "python") {
        vec![owned("python3-pip"), owned("python3-setuptools")]
    } else if str_contains(package, "node") {
        vec![owned("npm")]
    } else if str_contains(package, "docker") {
        vec![owned("containerd"), owned("runc")]
    } else if str_contains(package, "git") {
        vec![owned("curl"), owned("ca-certificates")]
    } else {
        Vec::new()
    };
    assert(texts(r@) =~= assumed_dependencies(package@));
    r
}

/// The action that installs `package`, at the user's request.
pub fn analyze_package(package: &str) -> (r: PackageAction)
    ensures
        r.package@ == package@,
        r.action == ActionType::Install,
        r.version is None,
        r.reason@ == "User requested"@,
        texts(r.dependencies@) == assumed_dependencies(package@),
{
    PackageAction {
        package: owned(package),
        action: ActionType::Install,
        version: None,
        reason: owned("User requested"),
        dependencies: get_package_dependencies(package),
    }
}

/// The names of the packages of some actions.
pub open spec fn action_names(a: Seq<PackageAction>) -> Seq<Seq<char>> {
    a.map_values(|x: PackageAction| x.package@)
}

/// A conflict as plain values.
pub open spec fn conflict_view(c: Conflict) -> (Seq<Seq<char>>, Seq<char>, Seq<Seq<char>>) {
    (texts(c.packages@), c.reason@, texts(c.suggestions@))
}

/// The conflicts among the planned packages: Python 2 beside Python 3, and
/// Docker beside Podman.
pub open spec fn conflicts_of(names: Seq<Seq<char>>) -> Seq<(Seq<Seq<char>>, Seq<char>, Seq<Seq<char>>)> {
    (if names.contains("python2"@) && names.contains("python3"@) {
        seq![(seq!["python2"@, "python3"@], "Python 2 and Python 3 may conflict in some configurations"@,
            seq!["Consider using only Python 3"@])]
    } else {
        Seq::empty()
    }) + (if names.contains("docker"@) && names.contains("podman"@) {
        seq![(seq!["docker"@, "podman"@], "Docker and Podman may conflict over container runtime"@,
            seq!["Choose one container runtime"@])]
    } else {
        Seq::empty()
    })
}

/// Whether some action is on the package named `name`.
fn plans(actions: &Vec<PackageAction>, name: &str) -> (r: bool)
    ensures
        r == action_names(actions@).contains(name@),
{
    let mut i: usize = 0;
    while i < actions.len()
        invariant
            i <= actions@.len(),
            forall|k: int| 0 <= k < i ==> actions@[k].package@ != name@,
        decreases actions.len() - i,
    {
        if text_eq(actions[i].package.as_str(), name) {
            assert(action_names(actions@)[i as int] == name@);
            return true;
        }
        i = i + 1;
    }
    proof {
        if action_names(actions@).contains(name@) {
            let k = choose|k: int| 0 <= k < action_names(actions@).len() && action_names(actions@)[k] == name@;
            assert(actions@[k].package@ == name@);
        }
    }
    false
}

/// The conflicts among the planned packages.
pub fn detect_conflicts(actions: &Vec<PackageAction>) -> (r: Vec<Conflict>)
    ensures
        r@.map_values(|c: Conflict| conflict_view(c)) == conflicts_of(action_names(actions@)),
{
    let mut r: Vec<Conflict> = Vec::new();
    if plans(actions, "python2") && plans(actions, "python3") {
        let packages = vec![owned("python2"), owned("python3")];
        let suggestions = vec![owned("Consider using only Python 3")];
        assert(texts(packages@) =~= seq!["python2"@, "python3"@]);
        assert(texts(suggestions@) =~= seq!["Consider using only Python 3"@]);
        r.push(Conflict {
            packages,
            reason: owned("Python 2 and Python 3 may conflict in some configurations"),
            suggestions,
        });
    }
    let ghost first = r@.map_values(|c: Conflict| conflict_view(c));
    if plans(actions, "docker") && plans(actions, "podman") {
        let packages = vec![owned("docker"), owned("podman")];
        let suggestions = vec![owned("Choose one container runtime")];
        assert(texts(packages@) =~= seq!["docker"@, "podman"@]);
        assert(texts(suggestions@) =~= seq!["Choose one container runtime"@]);
        r.push(Conflict { packages, reason: owned("Docker and Podman may conflict over container runtime"), suggestions });
    }
    assert(r@.map_values(|c: Conflict| conflict_view(c)) =~= conflicts_of(action_names(actions@)));
    r
}

/// A recommendation as plain values.
pub open spec fn recommendation_view(r: Recommendation) -> (Seq<char>, u8, Impact) {
    (r.message@, r.confidence_percent, r.impact)
}

/// The advice that goes with a strategy.
pub open spec fn strategy_advice(s: ResolutionStrategy) -> (Seq<char>, u8, Impact) {
    match s {
        ResolutionStrategy::Conservative => ("Using conservative approach - prioritizing stability"@, 90, Impact::Low),
        ResolutionStrategy::Latest => ("Using latest versions - may introduce breaking changes"@, 70, Impact::Medium),
        ResolutionStrategy::Security => ("Prioritizing security updates - recommended for production"@, 95, Impact::High),
        ResolutionStrategy::Performance => ("Optimizing for performance - may use more resources"@, 80, Impact::Medium),
    }
}

/// The advice about development packages among the planned ones.
pub open spec fn dev_advice(names: Seq<Seq<char>>) -> Seq<(Seq<char>, u8, Impact)>
    decreases names.len(),
{
    if names.len() == 0 {
        Seq::empty()
    } else {
        dev_advice(names.drop_last()) + if has_sub(names.last(), "dev"@) || has_sub(names.last(), "debug"@) {
            seq![("Package '"@ + names.last() + "' appears to be a development tool"@, 80u8, Impact::Low)]
        } else {
            Seq::empty()
        }
    }
}

/// The advice for a plan: that of the strategy, then one note for each
/// package whose name mentions development or debugging.
pub fn generate_recommendations(strategy: ResolutionStrategy, actions: &Vec<PackageAction>) -> (r: Vec<Recommendation>)
    ensures
        r@.map_values(|x: Recommendation| recommendation_view(x))
            == seq![strategy_advice(strategy)] + dev_advice(action_names(actions@)),
{
    let mut r: Vec<Recommendation> = Vec::new();
    let first = match strategy {
        ResolutionStrategy::Conservative => Recommendation {
            message: owned("Using conservative approach - prioritizing stability"),
            confidence_percent: 90,
            impact: Impact::Low,
        },
        ResolutionStrategy::Latest => Recommendation {
            message: owned("Using latest versions - may introduce breaking changes"),
            confidence_percent: 70,
            impact: Impact::Medium,
        },
        ResolutionStrategy::Security => Recommendation {
            message: owned("Prioritizing security updates - recommended for production"),
            confidence_percent: 95,
            impact: Impact::High,
        },
        ResolutionStrategy::Performance => Recommendation {
            message: owned("Optimizing for performance - may use more resources"),
            confidence_percent: 80,
            impact: Impact::Medium,
        },
    };
    r.push(first);
    let ghost names = action_names(actions@);
    let mut i: usize = 0;
    assert(r@.map_values(|x: Recommendation| recommendation_view(x)) =~= seq![strategy_advice(strategy)] + dev_advice(names.take(0)));
    while i < actions.len()
        invariant
            i <= actions@.len(),
            names == action_names(actions@),
            r@.map_values(|x: Recommendation| recommendation_view(x)) == seq![strategy_advice(strategy)] + dev_advice(names.take(i as int)),
        decreases actions.len() - i,
    {
        let ghost before = r@.map_values(|x: Recommendation| recommendation_view(x));
        assert(names.take(i + 1).drop_last() =~= names.take(i as int));
        assert(names.take(i + 1).last() == actions@[i as int].package@);
        let p = actions[i].package.as_str();
        if str_contains(p, "dev") || str_contains(p, "debug") {
            let rec = Recommendation {
                message: concat3("Package '", p, "' appears to be a development tool"),
                confidence_percent: 80,
                impact: Impact::Low,
            };
            r.push(rec);
            assert(r@.map_values(|x: Recommendation| recommendation_view(x)) =~= before.push(recommendation_view(rec)));
        }
        assert(r@.map_values(|x: Recommendation| recommendation_view(x)) =~= seq![strategy_advice(strategy)] + dev_advice(names.take(i + 1)));
        i = i + 1;
    }
    assert(names.take(actions@.len() as int) =~= names);
    r
}

/// The download size assumed for a package, in bytes, by what its name
/// contains.
pub open spec fn assumed_size(p: Seq<char>) -> nat {
    if has_sub(p, "kernel"@) {
        200_000_000
    } else if has_sub(p, "gcc"@) || has_sub(p, "clang"@) {
        150_000_000
    } else if has_sub(p, "python"@) {
        50_000_000
    } else if has_sub(p, "node"@) {
        80_000_000
    } else if has_sub(p, "docker"@) {
        100_000_000
    } else {
        10_000_000
    }
}

/// The install time assumed for a package, in seconds.
pub open spec fn assumed_time(p: Seq<char>) -> nat {
    if has_sub(p, "kernel"@) {
        300
    } else if has_sub(p, "gcc"@) || has_sub(p, "clang"@) {
        180
    } else if has_sub(p, "docker"@) {
        120
    } else {
        30
    }
}

/// The sum of the assumed sizes.
pub open spec fn size_total(names: Seq<Seq<char>>) -> nat
    decreases names.len(),
{
    if names.len() == 0 {
        0
    } else {
        size_total(names.drop_last()) + assumed_size(names.last())
    }
}

/// The sum of the assumed times.
pub open spec fn time_total(names: Seq<Seq<char>>) -> nat
    decreases names.len(),
{
    if names.len() == 0 {
        0
    } else {
        time_total(names.drop_last()) + assumed_time(names.last())
    }
}

/// Each assumed size is at most that of a kernel.
proof fn lemma_size_total_bound(names: Seq<Seq<char>>)
    ensures
        size_total(names) <= 200_000_000 * names.len(),
    decreases names.len(),
{
    if names.len() > 0 {
        lemma_size_total_bound(names.drop_last());
    }
}

/// Each assumed time is at most that of a kernel.
proof fn lemma_time_total_bound(names: Seq<Seq<char>>)
    ensures
        time_total(names) <= 300 * names.len(),
    decreases names.len(),
{
    if names.len() > 0 {
        lemma_time_total_bound(names.drop_last());
    }
}

/// The assumed size of a package.
fn assumed_size_exec(p: &str) -> (r: u64)
    ensures
        r == assumed_size(p@),
{
    if str_contains(p, "kernel") {
        200_000_000
    } else if str_contains(p, "gcc") || str_contains(p, "clang") {
        150_000_000
    } else if str_contains(p, "python") {
        50_000_000
    } else if str_contains(p, "node") {
        80_000_000
    } else if str_contains(p, "docker") {
        100_000_000
    } else {
        10_000_000
    }
}

/// The assumed time of a package.
fn assumed_time_exec(p: &str) -> (r: u64)
    ensures
        r == assumed_time(p@),
{
    if str_contains(p, "kernel") {
        300
    } else if str_contains(p, "gcc") || str_contains(p, "clang") {
        180
    } else if str_contains(p, "docker") {
        120
    } else {
        30
    }
}

/// The estimated download size of a plan: the sum of the sizes assumed by
/// name, but at least ten megabytes a package.
pub fn estimate_total_size(actions: &Vec<PackageAction>) -> (r: u64)
    requires
        actions@.len() * 200_000_000 <= u64::MAX,
    ensures
        r == if size_total(action_names(actions@)) >= 10_000_000 * actions@.len() {
            size_total(action_names(actions@))
        } else {
            10_000_000 * actions@.len()
        },
{
    let ghost names = action_names(actions@);
    let mut total: u64 = 0;
    let mut i: usize = 0;
    while i < actions.len()
        invariant
            i <= actions@.len(),
            names == action_names(actions@),
            actions@.len() * 200_000_000 <= u64::MAX,
            total == size_total(names.take(i as int)),
        decreases actions.len() - i,
    {
        assert(names.take(i + 1).drop_last() =~= names.take(i as int));
        assert(names.take(i + 1).last() == actions@[i as int].package@);
        proof {
            lemma_size_total_bound(names.take(i + 1));
        }
        let s = assumed_size_exec(actions[i].package.as_str());
        total = total + s;
        i = i + 1;
    }
    assert(names.take(actions@.len() as int) =~= names);
    let base: u64 = (actions.len() as u64) * 10_000_000;
    if total >= base { total } else { base }
}

/// The estimated install time of a plan in seconds: the sum of the times
/// assumed by name, but at least half a minute a package.
pub fn estimate_installation_time(actions: &Vec<PackageAction>) -> (r: u64)
    requires
        actions@.len() * 300 <= u64::MAX,
    ensures
        r == if time_total(action_names(actions@)) >= 30 * actions@.len() {
            time_total(action_names(actions@))
        } else {
            30 * actions@.len()
        },
{
    let ghost names = action_names(actions@);
    let mut total: u64 = 0;
    let mut i: usize = 0;
    while i < actions.len()
        invariant
            i <= actions@.len(),
            names == action_names(actions@),
            actions@.len() * 300 <= u64::MAX,
            total == time_total(names.take(i as int)),
        decreases actions.len() - i,
    {
        assert(names.take(i + 1).drop_last() =~= names.take(i as int));
        assert(names.take(i + 1).last() == actions@[i as int].package@);
        proof {
            lemma_time_total_bound(names.take(i + 1));
        }
        let s = assumed_time_exec(actions[i].package.as_str());
        total = total + s;
        i = i + 1;
    }
    assert(names.take(actions@.len() as int) =~= names);
    let base: u64 = (actions.len() as u64) * 30;
    if total >= base { total } else { base }
}

/// The names that the assumed dependencies of any package are among.
pub open spec fn dependency_names() -> Set<Seq<char>> {
    set!["python3-pip"@, "python3-setuptools"@, "npm"@, "containerd"@, "runc"@, "curl"@, "ca-certificates"@]
}

/// Every assumed dependency is one of `dependency_names`, of which there
/// are at most seven.
proof fn lemma_dependencies_within(p: Seq<char>)
    ensures
        forall|d: Seq<char>| assumed_dependencies(p).contains(d) ==> dependency_names().contains(d),
        dependency_names().finite(),
        dependency_names().len() <= 7,
{
    broadcast use vstd::set::group_set_axioms;
    assert forall|d: Seq<char>| assumed_dependencies(p).contains(d) implies dependency_names().contains(d) by {
        let ds = assumed_dependencies(p);
        let i = choose|i: int| 0 <= i < ds.len() && ds[i] == d;
    }
    let s0 = Set::<Seq<char>>::empty();
    let s1 = s0.insert("python3-pip"@);
    let s2 = s1.insert("python3-setuptools"@);
    let s3 = s2.insert("npm"@);
    let s4 = s3.insert("containerd"@);
    let s5 = s4.insert("runc"@);
    let s6 = s5.insert("curl"@);
    let s7 = s6.insert("ca-certificates"@);
    assert(s7 == dependency_names());
}

/// Whether `x` is an assumed dependency of one of `names`.
pub open spec fn needed_by(names: Seq<Seq<char>>, x: Seq<char>) -> bool {
    exists|j: int| 0 <= j < names.len() && #[trigger] assumed_dependencies(names[j]).contains(x)
}

/// The packages a plan holds: the requested ones and, again and again,
/// the assumed dependencies of those it holds.
pub open spec fn plan_closed(requested: Seq<Seq<char>>, names: Seq<Seq<char>>) -> bool {
    &&& names.no_duplicates()
    &&& forall|i: int| 0 <= i < requested.len() ==> names.contains(#[trigger] requested[i])
    &&& forall|i: int, d: Seq<char>| 0 <= i < names.len() && #[trigger] assumed_dependencies(names[i]).contains(d)
        ==> names.contains(d)
    &&& forall|i: int| 0 <= i < names.len() ==> requested.contains(#[trigger] names[i]) || exists|j: int|
        0 <= j < i && #[trigger] assumed_dependencies(names[j]).contains(names[i])
}

/// The actions of a plan for the requested packages: one installation per
/// package among them and their assumed dependencies, taken again and again
/// (each requested package, every dependency of a package in the plan, and
/// nothing else: each is requested or a dependency of one before it).
pub fn plan_actions(packages: &Vec<String>) -> (r: Vec<PackageAction>)
    ensures
        plan_closed(texts(packages@), action_names(r@)),
        forall|i: int| 0 <= i < r@.len() ==> {
            &&& (#[trigger] r@[i]).action == ActionType::Install
            &&& r@[i].version is None
            &&& r@[i].reason@ == "User requested"@
            &&& texts(r@[i].dependencies@) == assumed_dependencies(r@[i].package@)
        },
        r@.len() <= packages@.len() + 7,
{
    let ghost req = texts(packages@);
    let ghost universe = req.to_set().union(dependency_names());
    proof {
        lemma_dependencies_within(Seq::<char>::empty());
        req.lemma_cardinality_of_set();
        vstd::set_lib::lemma_len_union(req.to_set(), dependency_names());
    }
    let mut queue: Vec<String> = Vec::new();
    let mut k: usize = 0;
    while k < packages.len()
        invariant
            k <= packages@.len(),
            req == texts(packages@),
            texts(queue@) == req.take(k as int),
        decreases packages.len() - k,
    {
        let ghost before = texts(queue@);
        let x = packages[k].clone();
        assert(x@ == req[k as int]);
        queue.push(x);
        assert(texts(queue@) =~= before.push(req[k as int]));
        assert(req.take(k + 1) =~= req.take(k as int).push(req[k as int]));
        k = k + 1;
    }
    assert(req.take(packages@.len() as int) =~= req);
    let mut actions: Vec<PackageAction> = Vec::new();
    let mut idx: usize = 0;
    assert(action_names(actions@) =~= Seq::<Seq<char>>::empty());
    while idx < queue.len()
        invariant
            req == texts(packages@),
            universe == req.to_set().union(dependency_names()),
            universe.finite(),
            universe.len() <= packages@.len() + 7,
            idx <= queue@.len(),
            texts(queue@).len() == queue@.len(),
            queue@.len() >= req.len(),
            texts(queue@).take(req.len() as int) == req,
            forall|q: int| 0 <= q < queue@.len() ==> universe.contains(#[trigger] texts(queue@)[q]),
            action_names(actions@).no_duplicates(),
            forall|a: int| 0 <= a < actions@.len() ==> universe.contains(#[trigger] action_names(actions@)[a]),
            forall|q: int| 0 <= q < idx ==> action_names(actions@).contains(#[trigger] texts(queue@)[q]),
            forall|a: int, d: Seq<char>| 0 <= a < actions@.len() && #[trigger] assumed_dependencies(action_names(actions@)[a]).contains(d)
                ==> texts(queue@).contains(d),
            forall|q: int| req.len() <= q < queue@.len() ==> needed_by(action_names(actions@), #[trigger] texts(queue@)[q]),
            forall|a: int| 0 <= a < actions@.len() ==> req.contains(#[trigger] action_names(actions@)[a]) || exists|j: int|
                0 <= j < a && #[trigger] assumed_dependencies(action_names(actions@)[j]).contains(action_names(actions@)[a]),
            forall|i: int| 0 <= i < actions@.len() ==> {
                &&& (#[trigger] actions@[i]).action == ActionType::Install
                &&& actions@[i].version is None
                &&& actions@[i].reason@ == "User requested"@
                &&& texts(actions@[i].dependencies@) == assumed_dependencies(actions@[i].package@)
            },
        decreases universe.len() - actions@.len(), queue@.len() - idx,
    {
        let ghost names = action_names(actions@);
        proof {
            names.unique_seq_to_set();
            assert(names.to_set().subset_of(universe)) by {
                assert forall|x: Seq<char>| names.to_set().contains(x) implies universe.contains(x) by {
                    let a = choose|a: int| 0 <= a < names.len() && names[a] == x;
                }
            }
            vstd::set_lib::lemma_len_subset(names.to_set(), universe);
        }
        let name = queue[idx].clone();
        let ghost nv = name@;
        assert(nv == texts(queue@)[idx as int]);
        let mut present = false;
        let mut j: usize = 0;
        while j < actions.len()
            invariant
                j <= actions@.len(),
                names == action_names(actions@),
                name@ == nv,
                present ==> names.contains(nv),
                !present ==> forall|t: int| 0 <= t < j ==> names[t] != nv,
            decreases actions.len() - j,
        {
            assert(names[j as int] == actions@[j as int].package@);
            if text_eq(actions[j].package.as_str(), name.as_str()) {
                assert(names[j as int] == nv);
                present = true;
            }
            j = j + 1;
        }
        if !present {
            let action = analyze_package(name.as_str());
            let mut d: usize = 0;
            let ghost q0 = texts(queue@);
            while d < action.dependencies.len()
                invariant
                    d <= action.dependencies@.len(),
                    texts(action.dependencies@) == assumed_dependencies(nv),
                    texts(queue@) == q0 + texts(action.dependencies@).take(d as int),
                    texts(queue@).len() == queue@.len(),
                decreases action.dependencies.len() - d,
            {
                let ghost before = texts(queue@);
                let x = action.dependencies[d].clone();
                assert(x@ == texts(action.dependencies@)[d as int]);
                queue.push(x);
                assert(texts(queue@) =~= before.push(texts(action.dependencies@)[d as int]));
                assert(texts(action.dependencies@).take(d + 1) =~= texts(action.dependencies@).take(d as int).push(
                    texts(action.dependencies@)[d as int],
                ));
                assert(texts(queue@) =~= q0 + texts(action.dependencies@).take(d + 1));
                d = d + 1;
            }
            assert(texts(action.dependencies@).take(action.dependencies@.len() as int) =~= texts(action.dependencies@));
            let ghost old_actions = actions@;
            actions.push(action);
            proof {
                let qn = texts(queue@);
                let ds = assumed_dependencies(nv);
                let an = action_names(actions@);
                assert(an =~= names.push(nv));
                lemma_dependencies_within(nv);
                assert(qn =~= q0 + ds);
                assert forall|x: int| 0 <= x < qn.len() implies universe.contains(#[trigger] qn[x]) by {
                    if x >= q0.len() {
                        assert(ds.contains(qn[x]));
                    }
                }
                assert forall|x: int| 0 <= x <= idx implies an.contains(#[trigger] qn[x]) by {
                    if x < idx {
                        let a = choose|a: int| 0 <= a < names.len() && names[a] == q0[x];
                        assert(an[a] == q0[x]);
                    } else {
                        assert(an[names.len() as int] == nv);
                    }
                }
                assert forall|a: int, dd: Seq<char>| 0 <= a < an.len() && #[trigger] assumed_dependencies(an[a]).contains(dd)
                    implies qn.contains(dd) by {
                    if a < names.len() {
                        let w = choose|w: int| 0 <= w < q0.len() && q0[w] == dd;
                        assert(qn[w] == dd);
                    } else {
                        let w = choose|w: int| 0 <= w < ds.len() && ds[w] == dd;
                        assert(qn[q0.len() + w] == dd);
                    }
                }
                assert(an.len() == actions@.len());
                assert forall|q: int| req.len() <= q < queue@.len() implies needed_by(an, #[trigger] qn[q]) by {
                    if q < q0.len() {
                        assert(qn[q] == q0[q]);
                        assert(needed_by(names, q0[q]));
                        let jj = choose|jj: int| 0 <= jj < names.len() && #[trigger] assumed_dependencies(names[jj]).contains(q0[q]);
                        assert(an[jj] == names[jj]);
                        assert(assumed_dependencies(an[jj]).contains(qn[q]));
                    } else {
                        let w = q - q0.len();
                        assert(ds[w] == qn[q]);
                        assert(ds.contains(qn[q]));
                        let last = names.len() as int;
                        assert(an[last] == nv);
                        assert(assumed_dependencies(an[last]).contains(qn[q]));
                    }
                }
                assert forall|a: int| 0 <= a < an.len() implies req.contains(#[trigger] an[a]) || exists|jj: int|
                    0 <= jj < a && #[trigger] assumed_dependencies(an[jj]).contains(an[a]) by {
                    if a < names.len() {
                        if !req.contains(names[a]) {
                            let jj = choose|jj: int| 0 <= jj < a && #[trigger] assumed_dependencies(names[jj]).contains(names[a]);
                            assert(an[jj] == names[jj]);
                        }
                    } else {
                        if idx < req.len() {
                            assert(q0.take(req.len() as int)[idx as int] == nv);
                            assert(req[idx as int] == nv);
                        } else {
                            assert(needed_by(names, q0[idx as int]));
                            let jj = choose|jj: int| 0 <= jj < names.len() && #[trigger] assumed_dependencies(names[jj]).contains(q0[idx as int]);
                            assert(an[jj] == names[jj]);
                        }
                    }
                }
                assert(qn.take(req.len() as int) =~= q0.take(req.len() as int));
                assert(an.no_duplicates());
                an.unique_seq_to_set();
                assert(an.to_set().subset_of(universe)) by {
                    assert forall|x: Seq<char>| an.to_set().contains(x) implies universe.contains(x) by {
                        let a = choose|a: int| 0 <= a < an.len() && an[a] == x;
                    }
                }
                vstd::set_lib::lemma_len_subset(an.to_set(), universe);
            }
        } else {
            proof {
                assert forall|x: int| 0 <= x <= idx implies names.contains(#[trigger] texts(queue@)[x]) by {}
            }
        }
        idx = idx + 1;
    }
    proof {
        let an = action_names(actions@);
        let qn = texts(queue@);
        assert forall|i: int| 0 <= i < req.len() implies an.contains(#[trigger] req[i]) by {
            assert(qn.take(req.len() as int)[i] == qn[i]);
        }
        assert forall|i: int, d: Seq<char>| 0 <= i < an.len() && #[trigger] assumed_dependencies(an[i]).contains(d)
            implies an.contains(d) by {
            let w = choose|w: int| 0 <= w < qn.len() && qn[w] == d;
        }
        an.unique_seq_to_set();
        assert(an.to_set().subset_of(universe)) by {
            assert forall|x: Seq<char>| an.to_set().contains(x) implies universe.contains(x) by {
                let a = choose|a: int| 0 <= a < an.len() && an[a] == x;
            }
        }
        vstd::set_lib::lemma_len_subset(an.to_set(), universe);
    }
    actions
}


/// A plan for installing packages: the actions, the conflicts among them,
/// the advice given, the estimated download size in bytes and the
/// estimated installation time in seconds.
#[derive(Debug, Clone)]
pub struct ResolutionPlan {
    pub packages: Vec<PackageAction>,
    pub conflicts: Vec<Conflict>,
    pub recommendations: Vec<Recommendation>,
    pub total_size: u64,
    pub estimated_time: u64,
}

/// Plans package installations under a strategy.
#[derive(Debug, Clone)]
pub struct AdvancedDependencyResolver {
    pub strategy: ResolutionStrategy,
}

impl AdvancedDependencyResolver {
    /// A resolver with the conservative strategy.
    pub fn new() -> (r: Self)
        ensures
            r.strategy == ResolutionStrategy::Conservative,
    {
        AdvancedDependencyResolver { strategy: ResolutionStrategy::Conservative }
    }

    /// The same resolver with another strategy.
    pub fn with_strategy(self, strategy: ResolutionStrategy) -> (r: Self)
        ensures
            r.strategy == strategy,
    {
        AdvancedDependencyResolver { strategy }
    }

    /// The plan for the requested packages: the actions of `plan_actions`,
    /// their conflicts, the advice of the strategy and for development
    /// packages, and the size and time estimated for the actions.
    pub fn create_resolution_plan(&self, packages: &Vec<String>) -> (r: ResolutionPlan)
        requires
            (packages@.len() + 7) * 200_000_000 <= u64::MAX,
        ensures
            plan_closed(texts(packages@), action_names(r.packages@)),
            forall|i: int| 0 <= i < r.packages@.len() ==> {
                &&& (#[trigger] r.packages@[i]).action == ActionType::Install
                &&& r.packages@[i].version is None
                &&& r.packages@[i].reason@ == "User requested"@
                &&& texts(r.packages@[i].dependencies@) == assumed_dependencies(r.packages@[i].package@)
            },
            r.packages@.len() <= packages@.len() + 7,
            r.conflicts@.map_values(|c: Conflict| conflict_view(c)) == conflicts_of(action_names(r.packages@)),
            r.recommendations@.map_values(|x: Recommendation| recommendation_view(x))
                == seq![strategy_advice(self.strategy)] + dev_advice(action_names(r.packages@)),
            r.total_size == if size_total(action_names(r.packages@)) >= 10_000_000 * r.packages@.len() {
                size_total(action_names(r.packages@))
            } else {
                10_000_000 * r.packages@.len()
            },
            r.estimated_time == if time_total(action_names(r.packages@)) >= 30 * r.packages@.len() {
                time_total(action_names(r.packages@))
            } else {
                30 * r.packages@.len()
            },
    {
        let actions = plan_actions(packages);
        let conflicts = detect_conflicts(&actions);
        let recommendations = generate_recommendations(self.strategy, &actions);
        let total_size = estimate_total_size(&actions);
        let estimated_time = estimate_installation_time(&actions);
        ResolutionPlan { packages: actions, conflicts, recommendations, total_size, estimated_time }
    }
}

} // verus!
