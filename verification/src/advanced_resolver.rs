//! Dependency resolution over named packages: install order, cycles and
//! conflicts.
use vstd::prelude::*;
use crate::graph::{distinct, find_cycles, is_cycle, kahn_order, respects_edges, blocked_rest, has_edge, is_chain};
use crate::config::first_index;
use crate::error_handling::OmniError;
use crate::discovery::{entry_for, get_entry};
use crate::text::{concat2, concat3, concat4, concat7, owned, text_eq, texts};

verus! {

/// How one package relates to another.
#[derive(Debug, Clone, Copy, PartialEq, Eq, Structural)]
pub enum DependencyType {
    Required,
    Optional,
    Conflicts,
    Provides,
    Replaces,
}

/// What kind of conflict was found.
#[derive(Debug, Clone, Copy, PartialEq, Eq, Structural)]
pub enum ConflictType {
    VersionIncompatible,
    ExplicitConflict,
    FileConflict,
    CircularDependency,
    MissingDependency,
}

/// Which versions resolution prefers.
#[derive(Debug, Clone, Copy, PartialEq, Eq, Structural)]
pub enum ResolutionStrategy {
    Conservative,
    Latest,
    Minimal,
    UserGuided,
}

/// A conflict between two packages.
#[derive(Debug, Clone)]
pub struct ConflictReport {
    pub package1: String,
    pub package2: String,
    pub conflict_type: ConflictType,
    pub description: String,
    pub suggested_resolution: Option<String>,
}

/// A package that must not be installed alongside another.
#[derive(Debug, Clone)]
pub struct ConflictSpec {
    pub package: String,
    pub version_range: String,
    pub reason: String,
}

/// A virtual package provided by a package.
#[derive(Debug, Clone)]
pub struct ProvideSpec {
    pub virtual_package: String,
    pub version: String,
}

/// A dependency with its version requirement (in the syntax of Cargo).
#[derive(Debug, Clone)]
pub struct Dependency {
    pub name: String,
    pub version_req: String,
    pub box_type: String,
    pub optional: bool,
    pub conflicts: Vec<ConflictSpec>,
    pub provides: Vec<ProvideSpec>,
    pub alternatives: Vec<String>,
}

/// A package with the version chosen for it.
#[derive(Debug, Clone)]
pub struct ResolvedPackage {
    pub name: String,
    pub version: String,
    pub box_type: String,
    pub dependencies: Vec<Dependency>,
    pub source_url: Option<String>,
    pub install_order: usize,
    pub size: Option<u64>,
    pub is_virtual: bool,
    pub replaces: Vec<String>,
}

/// An edge of the dependency graph.
#[derive(Debug, Clone)]
pub struct GraphEdge {
    pub from: String,
    pub to: String,
    pub dependency_type: DependencyType,
    pub version_constraint: String,
}

/// The names of some packages.
pub open spec fn names_of(p: Seq<ResolvedPackage>) -> Seq<Seq<char>> {
    p.map_values(|x: ResolvedPackage| x.name@)
}

/// An edge counts for the install order: it is a required or an optional
/// dependency.
pub open spec fn counts_for_order(t: DependencyType) -> bool {
    t == DependencyType::Required || t == DependencyType::Optional
}

/// The position of the first string of `v` whose text is `x`.
fn index_in(v: &Vec<String>, x: &str) -> (r: Option<usize>)
    ensures
        match r {
            Some(i) => i < v@.len() && v@[i as int]@ == x@ && forall|k: int| 0 <= k < i ==> v@[k]@ != x@,
            None => forall|k: int| 0 <= k < v@.len() ==> v@[k]@ != x@,
        },
{
    let mut i: usize = 0;
    while i < v.len()
        invariant
            i <= v@.len(),
            forall|k: int| 0 <= k < i ==> v@[k]@ != x@,
        decreases v.len() - i,
    {
        if text_eq(v[i].as_str(), x) {
            return Some(i);
        }
        i = i + 1;
    }
    None
}

/// The texts of some strings.
pub open spec fn views(v: Seq<String>) -> Seq<Seq<char>> {
    v.map_values(|s: String| s@)
}

/// No text occurs twice.
pub open spec fn distinct_texts(s: Seq<Seq<char>>) -> bool {
    forall|a: int, b: int| 0 <= a < b < s.len() ==> s[a] != s[b]
}

/// The package names, each once, in the order of first appearance.
fn unique_names(packages: &Vec<ResolvedPackage>) -> (r: Vec<String>)
    ensures
        distinct_texts(views(r@)),
        forall|k: int| 0 <= k < r@.len() ==> names_of(packages@).contains(#[trigger] r@[k]@),
        forall|k: int| 0 <= k < packages@.len() ==> views(r@).contains(#[trigger] packages@[k].name@),
{
    let mut r: Vec<String> = Vec::new();
    let mut i: usize = 0;
    while i < packages.len()
        invariant
            i <= packages@.len(),
            distinct_texts(views(r@)),
            forall|k: int| 0 <= k < r@.len() ==> names_of(packages@).contains(#[trigger] r@[k]@),
            forall|k: int| 0 <= k < i ==> views(r@).contains(#[trigger] packages@[k].name@),
        decreases packages.len() - i,
    {
        let name = &packages[i].name;
        assert(names_of(packages@)[i as int] == name@);
        match index_in(&r, name.as_str()) {
            Some(j) => {
                assert(views(r@)[j as int] == name@);
            },
            None => {
                let ghost old_r = r@;
                r.push(name.clone());
                proof {
                    assert(views(r@) == views(old_r).push(name@));
                    assert forall|a: int, b: int| 0 <= a < b < views(r@).len() implies views(r@)[a] != views(r@)[b] by {
                        if b == old_r.len() {
                            assert(old_r[a]@ != name@);
                        }
                    }
                    assert forall|k: int| 0 <= k < i + 1 implies views(r@).contains(#[trigger] packages@[k].name@) by {
                        if k < i {
                            let t = choose|t: int| 0 <= t < views(old_r).len() && views(old_r)[t] == packages@[k].name@;
                            assert(views(r@)[t] == packages@[k].name@);
                        } else {
                            assert(views(r@)[old_r.len() as int] == name@);
                        }
                    }
                }
            },
        }
        i = i + 1;
    }
    r
}

/// `k` is the position of the first package named `name`.
pub open spec fn first_of_name(packages: Seq<ResolvedPackage>, k: int, name: Seq<char>) -> bool {
    &&& 0 <= k < packages.len()
    &&& packages[k].name@ == name
    &&& forall|k2: int| 0 <= k2 < k ==> packages[k2].name@ != name
}

/// The first package of the given name, which some package has.
fn first_named(packages: &Vec<ResolvedPackage>, name: &str) -> (r: usize)
    requires
        names_of(packages@).contains(name@),
    ensures
        r < packages@.len(),
        packages@[r as int].name@ == name@,
        forall|k: int| 0 <= k < r ==> packages@[k].name@ != name@,
{
    let mut i: usize = 0;
    while i < packages.len()
        invariant
            i <= packages@.len(),
            names_of(packages@).contains(name@),
            forall|k: int| 0 <= k < i ==> packages@[k].name@ != name@,
        decreases packages.len() - i,
    {
        if text_eq(packages[i].name.as_str(), name) {
            return i;
        }
        i = i + 1;
    }
    proof {
        let k = choose|k: int| 0 <= k < names_of(packages@).len() && names_of(packages@)[k] == name@;
        assert(packages@[k].name@ == name@);
    }
    0
}

/// Two packages agree in all but their place in an install order.
pub open spec fn same_package(a: ResolvedPackage, b: ResolvedPackage) -> bool {
    let va = package_view(a);
    let vb = package_view(b);
    &&& va.0 == vb.0
    &&& va.1 == vb.1
    &&& va.2 == vb.2
    &&& va.3 == vb.3
    &&& va.4 == vb.4
    &&& va.6 == vb.6
    &&& va.7 == vb.7
    &&& va.8 == vb.8
}

/// The names of an install order.
pub open spec fn order_names(r: Seq<ResolvedPackage>) -> Seq<Seq<char>> {
    names_of(r)
}

/// The install order of `packages` under the dependency edges `edges`:
/// each package name at most once, as its first package, numbered by
/// position; every package comes after the sources of the required and
/// optional edges into it; and a package is left out only where such an
/// edge comes into it from a package that is left out too (or that is not
/// among the packages), which happens exactly to packages that depend,
/// directly or not, on a cycle or on a missing package.
pub fn topological_sort(packages: &Vec<ResolvedPackage>, edges: &Vec<GraphEdge>) -> (r: Vec<ResolvedPackage>)
    ensures
        distinct_texts(names_of(r@)),
        forall|i: int| 0 <= i < r@.len() ==> (#[trigger] r@[i]).install_order == i,
        forall|i: int| #![trigger r@[i]] 0 <= i < r@.len() ==> exists|k: int|
            #[trigger] first_of_name(packages@, k, r@[i].name@) && r@[i].version == packages@[k].version
                && same_package(r@[i], packages@[k]),
        forall|p: int, j: int|
            #![trigger r@[p], edges@[j]]
            0 <= p < r@.len() && 0 <= j < edges@.len() && counts_for_order(edges@[j].dependency_type)
                && edges@[j].to@ == r@[p].name@ ==> names_of(r@).take(p).contains(edges@[j].from@),
        forall|k: int| 0 <= k < packages@.len() && !names_of(r@).contains(#[trigger] packages@[k].name@) ==>
            exists|j: int| 0 <= j < edges@.len() && counts_for_order(edges@[j].dependency_type)
                && #[trigger] edges@[j].to@ == packages@[k].name@ && !names_of(r@).contains(edges@[j].from@),
{
    let uniq = unique_names(packages);
    let n = uniq.len();
    let mut ie: Vec<(usize, usize)> = Vec::new();
    let ghost mut origin: Seq<int> = Seq::empty();
    let mut j: usize = 0;
    while j < edges.len()
        invariant
            j <= edges@.len(),
            n == uniq@.len(),
            ie@.len() == origin.len(),
            forall|t: int| 0 <= t < ie@.len() ==> {
                let o = #[trigger] origin[t];
                &&& 0 <= o < j
                &&& counts_for_order(edges@[o].dependency_type)
                &&& (ie@[t].0 < n ==> uniq@[ie@[t].0 as int]@ == edges@[o].from@)
                &&& (ie@[t].0 >= n ==> !views(uniq@).contains(edges@[o].from@))
                &&& (ie@[t].1 < n ==> uniq@[ie@[t].1 as int]@ == edges@[o].to@)
                &&& (ie@[t].1 >= n ==> !views(uniq@).contains(edges@[o].to@))
            },
            forall|o: int| 0 <= o < j && counts_for_order(#[trigger] edges@[o].dependency_type) ==>
                exists|t: int| 0 <= t < origin.len() && #[trigger] origin[t] == o,
        decreases edges.len() - j,
    {
        let t = edges[j].dependency_type;
        if t == DependencyType::Required || t == DependencyType::Optional {
            let f = match index_in(&uniq, edges[j].from.as_str()) {
                Some(a) => a,
                None => n,
            };
            let g = match index_in(&uniq, edges[j].to.as_str()) {
                Some(a) => a,
                None => n,
            };
            proof {
                if f >= n {
                    assert forall|k: int| 0 <= k < views(uniq@).len() implies views(uniq@)[k] != edges@[j as int].from@ by {
                        assert(uniq@[k]@ != edges@[j as int].from@);
                    }
                }
                if g >= n {
                    assert forall|k: int| 0 <= k < views(uniq@).len() implies views(uniq@)[k] != edges@[j as int].to@ by {
                        assert(uniq@[k]@ != edges@[j as int].to@);
                    }
                }
            }
            ie.push((f, g));
            proof {
                let old_origin = origin;
                origin = origin.push(j as int);
                assert forall|o: int| 0 <= o < j + 1 && counts_for_order(#[trigger] edges@[o].dependency_type) implies
                    exists|tt: int| 0 <= tt < origin.len() && #[trigger] origin[tt] == o by {
                    if o == j {
                        assert(origin[old_origin.len() as int] == o);
                    } else {
                        let tt = choose|tt: int| 0 <= tt < old_origin.len() && #[trigger] old_origin[tt] == o;
                        assert(origin[tt] == o);
                    }
                }
            }
        }
        j = j + 1;
    }
    let order = kahn_order(n, &ie);
    let mut r: Vec<ResolvedPackage> = Vec::new();
    let mut i: usize = 0;
    while i < order.len()
        invariant
            i <= order@.len(),
            n == uniq@.len(),
            r@.len() == i,
            forall|a: int| 0 <= a < order@.len() ==> order@[a] < n,
            forall|a: int| 0 <= a < i ==> (#[trigger] r@[a]).install_order == a,
            forall|a: int| 0 <= a < i ==> (#[trigger] r@[a]).name@ == uniq@[order@[a] as int]@,
            forall|a: int| #![trigger r@[a]] 0 <= a < i ==> exists|k: int|
                #[trigger] first_of_name(packages@, k, r@[a].name@) && r@[a].version == packages@[k].version
                    && same_package(r@[a], packages@[k]),
            forall|k: int| 0 <= k < uniq@.len() ==> names_of(packages@).contains(#[trigger] uniq@[k]@),
        decreases order.len() - i,
    {
        let v = order[i];
        let k = first_named(packages, uniq[v].as_str());
        let mut p = copy_package(&packages[k]);
        p.install_order = i;
        assert(p.name@ == uniq@[v as int]@);
        assert(first_of_name(packages@, k as int, p.name@));
        assert(same_package(p, packages@[k as int]));
        r.push(p);
        i = i + 1;
    }
    assert(i == order@.len());
    assert(r@.len() == i);
    proof {
        let ns = names_of(r@);
        assert forall|a: int| 0 <= a < r@.len() implies #[trigger] ns[a] == views(uniq@)[order@[a] as int] by {}
        // distinct names
        assert forall|a: int, b: int| 0 <= a < b < ns.len() implies ns[a] != ns[b] by {
            assert(order@[a] != order@[b]);
            assert(views(uniq@)[order@[a] as int] != views(uniq@)[order@[b] as int]);
        }
        // a name of the order is the name of a node exactly when the node is in the order
        assert forall|x: usize, p: int| x < n && 0 <= p <= r@.len() implies
            (#[trigger] ns.take(p).contains(uniq@[x as int]@) <==> order@.take(p).contains(x)) by {
            if ns.take(p).contains(uniq@[x as int]@) {
                let a = choose|a: int| 0 <= a < p && ns.take(p)[a] == uniq@[x as int]@;
                assert(views(uniq@)[order@[a] as int] == views(uniq@)[x as int]);
                if order@[a] != x {
                    if (order@[a] as int) < (x as int) {
                        assert(views(uniq@)[order@[a] as int] != views(uniq@)[x as int]);
                    } else {
                        assert(views(uniq@)[x as int] != views(uniq@)[order@[a] as int]);
                    }
                }
                assert(order@.take(p)[a] == x);
            }
            if order@.take(p).contains(x) {
                let a = choose|a: int| 0 <= a < p && order@.take(p)[a] == x;
                assert(ns.take(p)[a] == uniq@[x as int]@);
            }
        }
        assert(ns.take(r@.len() as int) =~= ns);
        assert(order@.take(order@.len() as int) =~= order@);
        // respects edges
        assert forall|p: int, jj: int|
            #![trigger r@[p], edges@[jj]]
            0 <= p < r@.len() && 0 <= jj < edges@.len() && counts_for_order(edges@[jj].dependency_type)
                && edges@[jj].to@ == r@[p].name@ implies ns.take(p).contains(edges@[jj].from@) by {
            let t = choose|t: int| 0 <= t < origin.len() && #[trigger] origin[t] == jj;
            let e2 = ie@[t];
            assert(views(uniq@).contains(edges@[jj].to@)) by {
                assert(views(uniq@)[order@[p] as int] == r@[p].name@);
            }
            assert(e2.1 < n);
            assert(uniq@[e2.1 as int]@ == uniq@[order@[p] as int]@);
            if e2.1 != order@[p] {
                if (e2.1 as int) < (order@[p] as int) {
                    assert(views(uniq@)[e2.1 as int] != views(uniq@)[order@[p] as int]);
                } else {
                    assert(views(uniq@)[order@[p] as int] != views(uniq@)[e2.1 as int]);
                }
            }
            assert(ie@[t].1 == order@[p]);
            assert(order@.take(p).contains(ie@[t].0));
            let a = choose|a: int| 0 <= a < p && order@.take(p)[a] == ie@[t].0;
            assert(order@[a] < n);
            assert(ns.take(p)[a] == uniq@[ie@[t].0 as int]@);
        }
        // blocked packages
        assert forall|k: int| 0 <= k < packages@.len() && !ns.contains(#[trigger] packages@[k].name@) implies
            exists|jj: int| 0 <= jj < edges@.len() && counts_for_order(edges@[jj].dependency_type)
                && #[trigger] edges@[jj].to@ == packages@[k].name@ && !ns.contains(edges@[jj].from@) by {
            let x = packages@[k].name@;
            let vi = choose|vi: int| 0 <= vi < views(uniq@).len() && views(uniq@)[vi] == x;
            let v = vi as usize;
            assert(ns.take(r@.len() as int).contains(uniq@[v as int]@) <==> order@.take(r@.len() as int).contains(v));
            assert(!order@.contains(v));
            let t = choose|t: int| 0 <= t < ie@.len() && #[trigger] ie@[t].1 == v && !order@.contains(ie@[t].0);
            let jj = origin[t];
            assert(edges@[jj].to@ == x);
            if ie@[t].0 < n {
                assert(ns.take(r@.len() as int).contains(uniq@[ie@[t].0 as int]@) <==> order@.take(r@.len() as int).contains(ie@[t].0));
            } else {
                if ns.contains(edges@[jj].from@) {
                    let a = choose|a: int| 0 <= a < ns.len() && ns[a] == edges@[jj].from@;
                    assert(views(uniq@)[order@[a] as int] == edges@[jj].from@);
                }
            }
        }
    }
    r
}

/// Some edge goes from the package named `a` to the one named `b`.
pub open spec fn name_edge(edges: Seq<GraphEdge>, a: Seq<char>, b: Seq<char>) -> bool {
    exists|j: int| 0 <= j < edges.len() && #[trigger] edges[j].from@ == a && edges[j].to@ == b
}

/// `c` is a cycle of named packages: each has an edge to the next, and the
/// last an edge back to the first.
pub open spec fn is_name_cycle(edges: Seq<GraphEdge>, c: Seq<Seq<char>>) -> bool {
    &&& c.len() > 0
    &&& forall|i: int| 0 <= i < c.len() - 1 ==> name_edge(edges, #[trigger] c[i], c[i + 1])
    &&& name_edge(edges, c.last(), c[0])
}

/// The names of the graph's nodes followed by the other names its edges
/// mention, each once.
fn graph_names(nodes: &Vec<String>, edges: &Vec<GraphEdge>) -> (r: (Vec<String>, usize))
    ensures
        r.1 <= r.0@.len(),
        distinct_texts(views(r.0@)),
        forall|j: int| 0 <= j < edges@.len() ==> views(r.0@).contains(#[trigger] edges@[j].from@) && views(r.0@).contains(edges@[j].to@),
        forall|i: int| 0 <= i < nodes@.len() ==> views(r.0@).take(r.1 as int).contains(#[trigger] nodes@[i]@),
{
    let mut all: Vec<String> = Vec::new();
    let mut i: usize = 0;
    while i < nodes.len()
        invariant
            i <= nodes@.len(),
            distinct_texts(views(all@)),
            forall|i2: int| 0 <= i2 < i ==> views(all@).contains(#[trigger] nodes@[i2]@),
        decreases nodes.len() - i,
    {
        let ghost a0 = all@;
        push_new(&mut all, nodes[i].as_str());
        proof {
            assert forall|i2: int| 0 <= i2 < i + 1 implies views(all@).contains(#[trigger] nodes@[i2]@) by {
                if i2 < i {
                    let k = choose|k: int| 0 <= k < views(a0).len() && views(a0)[k] == nodes@[i2]@;
                    assert(all@[k] == a0[k]);
                    assert(views(all@)[k] == nodes@[i2]@);
                }
            }
        }
        i = i + 1;
    }
    let n = all.len();
    assert(views(all@).take(n as int) =~= views(all@));
    let mut j: usize = 0;
    while j < edges.len()
        invariant
            j <= edges@.len(),
            n <= all@.len(),
            distinct_texts(views(all@)),
            forall|k: int| 0 <= k < j ==> views(all@).contains(#[trigger] edges@[k].from@) && views(all@).contains(edges@[k].to@),
            forall|i2: int| 0 <= i2 < nodes@.len() ==> views(all@).take(n as int).contains(#[trigger] nodes@[i2]@),
        decreases edges.len() - j,
    {
        let ghost a0 = all@;
        push_new(&mut all, edges[j].from.as_str());
        let ghost a1 = all@;
        push_new(&mut all, edges[j].to.as_str());
        proof {
            assert(views(all@).take(n as int) =~= views(a0).take(n as int)) by {
                assert forall|k: int| 0 <= k < n implies all@[k] == a0[k] by {
                    assert(all@[k] == a1[k] && a1[k] == a0[k]);
                }
            }
            assert forall|k: int| 0 <= k < j + 1 implies views(all@).contains(#[trigger] edges@[k].from@) && views(all@).contains(edges@[k].to@) by {
                if k < j {
                    let t = choose|t: int| 0 <= t < views(a0).len() && views(a0)[t] == edges@[k].from@;
                    assert(a1[t] == a0[t]);
                    assert(views(all@)[t] == edges@[k].from@);
                    let t2 = choose|t2: int| 0 <= t2 < views(a0).len() && views(a0)[t2] == edges@[k].to@;
                    assert(a1[t2] == a0[t2]);
                    assert(views(all@)[t2] == edges@[k].to@);
                } else {
                    let t = choose|t: int| 0 <= t < views(a1).len() && views(a1)[t] == edges@[k].from@;
                    assert(views(all@)[t] == edges@[k].from@);
                }
            }
        }
        j = j + 1;
    }
    (all, n)
}

/// Adds the text `x` at the end of `v` unless it is there already.
fn push_new(v: &mut Vec<String>, x: &str)
    requires
        distinct_texts(views(old(v)@)),
    ensures
        distinct_texts(views(final(v)@)),
        views(final(v)@).contains(x@),
        old(v)@.len() <= final(v)@.len(),
        forall|k: int| 0 <= k < old(v)@.len() ==> #[trigger] final(v)@[k] == old(v)@[k],
{
    match index_in(v, x) {
        Some(i) => {
            assert(views(v@)[i as int] == x@);
        },
        None => {
            let ghost v0 = v@;
            let s = owned(x);
            v.push(s);
            proof {
                assert(views(v@) =~= views(v0).push(x@));
                assert forall|a: int, b: int| 0 <= a < b < views(v@).len() implies views(v@)[a] != views(v@)[b] by {
                    if b == v0.len() {
                        assert(v0[a]@ != x@);
                    }
                }
                assert(views(v@)[v0.len() as int] == x@);
            }
        },
    }
}

/// The position of a text that `v` holds.
fn index_of_known(v: &Vec<String>, x: &str) -> (r: usize)
    requires
        views(v@).contains(x@),
    ensures
        r < v@.len(),
        v@[r as int]@ == x@,
{
    match index_in(v, x) {
        Some(i) => i,
        None => {
            proof {
                let t = choose|t: int| 0 <= t < views(v@).len() && views(v@)[t] == x@;
                assert(v@[t]@ == x@);
            }
            0
        },
    }
}

/// The cycles found by depth-first searches of the graph with the named
/// nodes and the given edges (of any kind), started from each node in turn.
/// Every list returned is a cycle of named packages; none is returned only
/// where no cycle can be reached along the edges from a named node.
#[verifier::spinoff_prover]
pub fn detect_cycles(nodes: &Vec<String>, edges: &Vec<GraphEdge>) -> (r: Vec<Vec<String>>)
    ensures
        forall|k: int| 0 <= k < r@.len() ==> is_name_cycle(edges@, #[trigger] views(r@[k]@)),
        r@.len() == 0 ==> forall|p: Seq<Seq<char>>, c: Seq<Seq<char>>|
            #![trigger is_name_chain(edges@, p), is_name_cycle(edges@, c)]
            p.len() > 0 && views(nodes@).contains(p[0]) && is_name_chain(edges@, p) && is_name_cycle(edges@, c)
                ==> !c.contains(p.last()),
{
    let (all, n) = graph_names(nodes, edges);
    let m = all.len();
    let mut ie: Vec<(usize, usize)> = Vec::new();
    let mut j: usize = 0;
    while j < edges.len()
        invariant
            j <= edges@.len(),
            m == all@.len(),
            ie@.len() == j,
            forall|k: int| 0 <= k < edges@.len() ==> views(all@).contains(#[trigger] edges@[k].from@) && views(all@).contains(edges@[k].to@),
            forall|t: int| 0 <= t < j ==> (#[trigger] ie@[t]).0 < m && ie@[t].1 < m
                && all@[ie@[t].0 as int]@ == edges@[t].from@ && all@[ie@[t].1 as int]@ == edges@[t].to@,
        decreases edges.len() - j,
    {
        let a = index_of_known(&all, edges[j].from.as_str());
        let b = index_of_known(&all, edges[j].to.as_str());
        ie.push((a, b));
        j = j + 1;
    }
    let cyc = find_cycles(n, m, &ie);
    let mut r: Vec<Vec<String>> = Vec::new();
    let mut c: usize = 0;
    while c < cyc.len()
        invariant
            c <= cyc@.len(),
            m == all@.len(),
            forall|k: int| 0 <= k < cyc@.len() ==> is_cycle(ie@, #[trigger] cyc@[k]@),
            forall|t: int| 0 <= t < ie@.len() ==> (#[trigger] ie@[t]).0 < m && ie@[t].1 < m
                && all@[ie@[t].0 as int]@ == edges@[t].from@ && all@[ie@[t].1 as int]@ == edges@[t].to@,
            ie@.len() == edges@.len(),
            forall|k: int| 0 <= k < r@.len() ==> is_name_cycle(edges@, #[trigger] views(r@[k]@)),
            r@.len() == c,
        decreases cyc.len() - c,
    {
        let ids = &cyc[c];
        proof {
            assert(is_cycle(ie@, ids@));
            assert forall|u: int| 0 <= u < ids@.len() implies #[trigger] ids@[u] < m by {
                if u < ids@.len() - 1 {
                    assert(has_edge(ie@, ids@[u], ids@[u + 1]));
                    let jj = choose|jj: int| 0 <= jj < ie@.len() && #[trigger] ie@[jj] == (ids@[u], ids@[u + 1]);
                    assert(ie@[jj].0 < m);
                } else {
                    assert(has_edge(ie@, ids@.last(), ids@[0]));
                    let jj = choose|jj: int| 0 <= jj < ie@.len() && #[trigger] ie@[jj] == (ids@.last(), ids@[0]);
                    assert(ie@[jj].0 < m);
                }
            }
        }
        let mut names: Vec<String> = Vec::new();
        let mut t: usize = 0;
        while t < ids.len()
            invariant
                t <= ids@.len(),
                forall|u: int| 0 <= u < ids@.len() ==> #[trigger] ids@[u] < m,
                m == all@.len(),
                names@.len() == t,
                forall|u: int| 0 <= u < t ==> (#[trigger] names@[u])@ == all@[ids@[u] as int]@,
            decreases ids.len() - t,
        {
            names.push(all[ids[t]].clone());
            t = t + 1;
        }
        proof {
            let cv = ids@;
            let nv = views(names@);
            assert(is_cycle(ie@, cv));
            assert forall|u: int| 0 <= u < nv.len() - 1 implies name_edge(edges@, #[trigger] nv[u], nv[u + 1]) by {
                assert(has_edge(ie@, cv[u], cv[u + 1]));
                let jj = choose|jj: int| 0 <= jj < ie@.len() && #[trigger] ie@[jj] == (cv[u], cv[u + 1]);
                assert(edges@[jj].from@ == nv[u] && edges@[jj].to@ == nv[u + 1]);
            }
            assert(name_edge(edges@, nv.last(), nv[0])) by {
                assert(has_edge(ie@, cv.last(), cv[0]));
                let jj = choose|jj: int| 0 <= jj < ie@.len() && #[trigger] ie@[jj] == (cv.last(), cv[0]);
                assert(edges@[jj].from@ == nv.last() && edges@[jj].to@ == nv[0]);
            }
        }
        r.push(names);
        c = c + 1;
    }
    proof {
        if r@.len() == 0 {
            let allv = views(all@);
            assert(allv.len() == m);
            assert forall|t: int| 0 <= t < ie@.len() implies (#[trigger] ie@[t]).0 < allv.len() && ie@[t].1 < allv.len()
                && allv[ie@[t].0 as int] == edges@[t].from@ && allv[ie@[t].1 as int] == edges@[t].to@ by {}
            assert forall|p: Seq<Seq<char>>, cn: Seq<Seq<char>>|
                #![trigger is_name_chain(edges@, p), is_name_cycle(edges@, cn)]
                p.len() > 0 && views(nodes@).contains(p[0]) && is_name_chain(edges@, p) && is_name_cycle(edges@, cn)
                    implies !cn.contains(p.last()) by {
                let i0 = choose|i0: int| 0 <= i0 < views(nodes@).len() && views(nodes@)[i0] == p[0];
                assert(views(nodes@)[i0] == nodes@[i0]@);
                assert(allv.take(n as int).contains(nodes@[i0]@));
                let k0 = choose|k0: int| 0 <= k0 < allv.take(n as int).len() && allv.take(n as int)[k0] == nodes@[i0]@;
                assert(allv[k0] == p[0]);
                let pi = lemma_index_chain(allv, edges@, ie@, p, k0);
                let ci = lemma_index_cycle(allv, edges@, ie@, cn);
                if cn.contains(p.last()) {
                    let w = choose|w: int| 0 <= w < cn.len() && cn[w] == p.last();
                    assert(allv[ci[w] as int] == allv[pi.last() as int]);
                    assert(ci[w] == pi.last()) by {
                        if ci[w] != pi.last() {
                            if (ci[w] as int) < (pi.last() as int) {
                                assert(allv[ci[w] as int] != allv[pi.last() as int]);
                            } else {
                                assert(allv[pi.last() as int] != allv[ci[w] as int]);
                            }
                        }
                    }
                    assert(ci.contains(pi.last()));
                    assert(is_chain(ie@, pi) && is_cycle(ie@, ci));
                }
            }
        }
    }
    r
}

/// Names joined, each to the next, by edges.
pub open spec fn is_name_chain(edges: Seq<GraphEdge>, p: Seq<Seq<char>>) -> bool {
    forall|i: int| 0 <= i < p.len() - 1 ==> name_edge(edges, #[trigger] p[i], p[i + 1])
}

/// An edge between names is an edge between their positions.
proof fn lemma_index_edge(allv: Seq<Seq<char>>, edges: Seq<GraphEdge>, ie: Seq<(usize, usize)>, a: Seq<char>, b: Seq<char>) -> (r: (
    usize,
    usize,
))
    requires
        distinct_texts(allv),
        ie.len() == edges.len(),
        forall|t: int| 0 <= t < ie.len() ==> (#[trigger] ie[t]).0 < allv.len() && ie[t].1 < allv.len()
            && allv[ie[t].0 as int] == edges[t].from@ && allv[ie[t].1 as int] == edges[t].to@,
        name_edge(edges, a, b),
    ensures
        (r.0 as int) < allv.len(),
        (r.1 as int) < allv.len(),
        allv[r.0 as int] == a,
        allv[r.1 as int] == b,
        has_edge(ie, r.0, r.1),
{
    let j = choose|j: int| 0 <= j < edges.len() && #[trigger] edges[j].from@ == a && edges[j].to@ == b;
    assert(ie[j] == (ie[j].0, ie[j].1));
    (ie[j].0, ie[j].1)
}

/// Two positions of the same name are the same.
proof fn lemma_same_position(allv: Seq<Seq<char>>, x: int, y: int)
    requires
        distinct_texts(allv),
        0 <= x < allv.len(),
        0 <= y < allv.len(),
        allv[x] == allv[y],
    ensures
        x == y,
{
    if x < y {
        assert(allv[x] != allv[y]);
    }
    if y < x {
        assert(allv[y] != allv[x]);
    }
}

/// A chain of names from the name at position `k0` is a chain of positions.
proof fn lemma_index_chain(
    allv: Seq<Seq<char>>,
    edges: Seq<GraphEdge>,
    ie: Seq<(usize, usize)>,
    p: Seq<Seq<char>>,
    k0: int,
) -> (pi: Seq<usize>)
    requires
        distinct_texts(allv),
        ie.len() == edges.len(),
        forall|t: int| 0 <= t < ie.len() ==> (#[trigger] ie[t]).0 < allv.len() && ie[t].1 < allv.len()
            && allv[ie[t].0 as int] == edges[t].from@ && allv[ie[t].1 as int] == edges[t].to@,
        is_name_chain(edges, p),
        p.len() > 0,
        allv.len() <= usize::MAX,
        0 <= k0 < allv.len(),
        allv[k0] == p[0],
    ensures
        pi.len() == p.len(),
        pi[0] == k0,
        forall|i: int| 0 <= i < pi.len() ==> (#[trigger] pi[i] as int) < allv.len() && allv[pi[i] as int] == p[i],
        is_chain(ie, pi),
    decreases p.len(),
{
    if p.len() == 1 {
        let pi = seq![k0 as usize];
        pi
    } else {
        let q = p.drop_last();
        assert forall|i: int| 0 <= i < q.len() - 1 implies name_edge(edges, #[trigger] q[i], q[i + 1]) by {
            assert(name_edge(edges, p[i], p[i + 1]));
        }
        let qi = lemma_index_chain(allv, edges, ie, q, k0);
        assert(name_edge(edges, p[p.len() - 2], p[p.len() - 2 + 1]));
        let (a, b) = lemma_index_edge(allv, edges, ie, p[p.len() - 2], p[p.len() - 1]);
        lemma_same_position(allv, a as int, qi.last() as int);
        let pi = qi.push(b);
        assert forall|i: int| 0 <= i < pi.len() - 1 implies has_edge(ie, #[trigger] pi[i], pi[i + 1]) by {
            if i < qi.len() - 1 {
                assert(pi[i] == qi[i] && pi[i + 1] == qi[i + 1]);
            } else {
                assert(pi[i] == a && pi[i + 1] == b);
            }
        }
        pi
    }
}

/// A cycle of names is a cycle of positions.
proof fn lemma_index_cycle(allv: Seq<Seq<char>>, edges: Seq<GraphEdge>, ie: Seq<(usize, usize)>, c: Seq<Seq<char>>) -> (ci: Seq<
    usize,
>)
    requires
        distinct_texts(allv),
        ie.len() == edges.len(),
        forall|t: int| 0 <= t < ie.len() ==> (#[trigger] ie[t]).0 < allv.len() && ie[t].1 < allv.len()
            && allv[ie[t].0 as int] == edges[t].from@ && allv[ie[t].1 as int] == edges[t].to@,
        is_name_cycle(edges, c),
        allv.len() <= usize::MAX,
    ensures
        ci.len() == c.len(),
        forall|i: int| 0 <= i < ci.len() ==> (#[trigger] ci[i] as int) < allv.len() && allv[ci[i] as int] == c[i],
        is_cycle(ie, ci),
{
    let (a, b) = lemma_index_edge(allv, edges, ie, c.last(), c[0]);
    assert forall|i: int| 0 <= i < c.len() - 1 implies name_edge(edges, #[trigger] c[i], c[i + 1]) by {}
    let ci = lemma_index_chain(allv, edges, ie, c, b as int);
    lemma_same_position(allv, a as int, ci.last() as int);
    assert(has_edge(ie, ci.last(), ci[0]));
    ci
}

/// What `semver` says of the version written `version` against the
/// requirement written `req`, both parsed by the crate: `None` where either
/// does not parse.
pub uninterp spec fn semver_match(req: Seq<char>, version: Seq<char>) -> Option<bool>;

/// `semver::VersionReq::matches`, on a requirement and a version parsed by
/// `semver::VersionReq::parse` and `semver::Version::parse` (`None` where
/// either parse fails). The result is named by `semver_match`.
#[verifier::external_body]
fn semver_matches(req: &str, version: &str) -> (r: Option<bool>)
    ensures
        r == semver_match(req@, version@),
{
    match (semver::VersionReq::parse(req), semver::Version::parse(version)) {
        (Ok(q), Ok(v)) => Some(q.matches(&v)),
        _ => None,
    }
}

/// Whether the version written `version` meets the requirement written
/// `req` (`None` where either is not well written).
pub fn requirement_matches(req: &str, version: &str) -> (r: Option<bool>)
    ensures
        r == semver_match(req@, version@),
{
    semver_matches(req, version)
}

/// A conflict report as plain values.
pub open spec fn report_view(r: ConflictReport) -> (Seq<char>, Seq<char>, ConflictType, Seq<char>, Option<Seq<char>>) {
    (r.package1@, r.package2@, r.conflict_type, r.description@, match r.suggested_resolution {
        Some(s) => Some(s@),
        None => None,
    })
}

/// Conflict reports as plain values.
pub open spec fn report_views(r: Seq<ConflictReport>) -> Seq<(Seq<char>, Seq<char>, ConflictType, Seq<char>, Option<Seq<char>>)> {
    r.map_values(|x: ConflictReport| report_view(x))
}

/// The first package among the first `k` that a conflict specification
/// names and whose version falls in its range.
pub open spec fn first_conflicting(ps: Seq<ResolvedPackage>, c: ConflictSpec, k: int) -> Option<int>
    decreases k,
{
    if k <= 0 {
        None
    } else {
        match first_conflicting(ps, c, k - 1) {
            Some(i) => Some(i),
            None => if ps[k - 1].name@ == c.package@ && semver_match(c.version_range@, ps[k - 1].version@) == Some(true) {
                Some(k - 1)
            } else {
                None
            },
        }
    }
}

/// The report of the explicit conflicts of `owner` named by the
/// specifications `cs`, in order.
pub open spec fn spec_reports(ps: Seq<ResolvedPackage>, owner: Seq<char>, cs: Seq<ConflictSpec>) -> Seq<(Seq<char>, Seq<char>, ConflictType, Seq<char>, Option<Seq<char>>)>
    decreases cs.len(),
{
    if cs.len() == 0 {
        Seq::empty()
    } else {
        spec_reports(ps, owner, cs.drop_last()) + match first_conflicting(ps, cs.last(), ps.len() as int) {
            Some(i) => seq![(owner, ps[i].name@, ConflictType::ExplicitConflict, cs.last().reason@,
                Some("Remove "@ + ps[i].name@ + " or choose a different version"@))],
            None => Seq::empty(),
        }
    }
}

/// The explicit conflicts of `owner` through its dependencies `ds`.
pub open spec fn dependency_reports(ps: Seq<ResolvedPackage>, owner: Seq<char>, ds: Seq<Dependency>) -> Seq<(Seq<char>, Seq<char>, ConflictType, Seq<char>, Option<Seq<char>>)>
    decreases ds.len(),
{
    if ds.len() == 0 {
        Seq::empty()
    } else {
        dependency_reports(ps, owner, ds.drop_last()) + spec_reports(ps, owner, ds.last().conflicts@)
    }
}

/// The explicit conflicts of the packages `qs` among the packages `ps`.
pub open spec fn explicit_reports(ps: Seq<ResolvedPackage>, qs: Seq<ResolvedPackage>) -> Seq<(Seq<char>, Seq<char>, ConflictType, Seq<char>, Option<Seq<char>>)>
    decreases qs.len(),
{
    if qs.len() == 0 {
        Seq::empty()
    } else {
        explicit_reports(ps, qs.drop_last()) + dependency_reports(ps, qs.last().name@, qs.last().dependencies@)
    }
}

/// The distinct texts of `s`, in the order of their first occurrence.
pub open spec fn firsts(s: Seq<Seq<char>>) -> Seq<Seq<char>>
    decreases s.len(),
{
    if s.len() == 0 {
        Seq::empty()
    } else if s.drop_last().contains(s.last()) {
        firsts(s.drop_last())
    } else {
        firsts(s.drop_last()).push(s.last())
    }
}

/// `x` occurs at least twice in `s`.
pub open spec fn occurs_twice(s: Seq<Seq<char>>, x: Seq<char>) -> bool {
    exists|a: int, b: int| 0 <= a < b < s.len() && s[a] == x && s[b] == x
}

/// The texts of `u` that occur twice in `s`, in order.
pub open spec fn twice_among(u: Seq<Seq<char>>, s: Seq<Seq<char>>) -> Seq<Seq<char>>
    decreases u.len(),
{
    if u.len() == 0 {
        Seq::empty()
    } else if occurs_twice(s, u.last()) {
        twice_among(u.drop_last(), s).push(u.last())
    } else {
        twice_among(u.drop_last(), s)
    }
}

/// The report about a name given to several packages.
pub open spec fn group_report(name: Seq<char>) -> (Seq<char>, Seq<char>, ConflictType, Seq<char>, Option<Seq<char>>) {
    (name, name, ConflictType::VersionIncompatible, "Multiple versions of "@ + name + " requested"@,
        Some("Choose a single compatible version"@))
}

/// The conflicts among resolved packages: first the explicit ones, package
/// by package, dependency by dependency, each against the first package it
/// names whose version falls in its range; then one for each name given to
/// several packages, in the order the names first appear.
pub open spec fn conflicts_of(ps: Seq<ResolvedPackage>) -> Seq<(Seq<char>, Seq<char>, ConflictType, Seq<char>, Option<Seq<char>>)> {
    explicit_reports(ps, ps) + twice_among(firsts(names_of(ps)), names_of(ps)).map_values(|x: Seq<char>| group_report(x))
}

/// The first package that the conflict specification `c` hits.
fn find_conflicting(ps: &Vec<ResolvedPackage>, c: &ConflictSpec) -> (r: Option<usize>)
    ensures
        match r {
            Some(i) => first_conflicting(ps@, *c, ps@.len() as int) == Some(i as int),
            None => first_conflicting(ps@, *c, ps@.len() as int) is None,
        },
        r matches Some(i) ==> i < ps@.len(),
{
    let mut i: usize = 0;
    while i < ps.len()
        invariant
            i <= ps@.len(),
            first_conflicting(ps@, *c, i as int) is None,
        decreases ps.len() - i,
    {
        if text_eq(ps[i].name.as_str(), c.package.as_str())
            && semver_matches(c.version_range.as_str(), ps[i].version.as_str()) == Some(true) {
            proof {
                lemma_first_conflicting_stays(ps@, *c, i + 1, ps@.len() as int);
            }
            return Some(i);
        }
        i = i + 1;
    }
    None
}

/// Once found, the first conflicting package stays the first.
proof fn lemma_first_conflicting_stays(ps: Seq<ResolvedPackage>, c: ConflictSpec, k: int, k2: int)
    requires
        0 <= k <= k2,
        first_conflicting(ps, c, k) is Some,
    ensures
        first_conflicting(ps, c, k2) == first_conflicting(ps, c, k),
    decreases k2 - k,
{
    if k2 > k {
        lemma_first_conflicting_stays(ps, c, k, k2 - 1);
    }
}

/// A report as plain values, for a new report.
fn make_report(p1: String, p2: String, t: ConflictType, d: String, s: String) -> (r: ConflictReport)
    ensures
        report_view(r) == (p1@, p2@, t, d@, Some(s@)),
{
    ConflictReport { package1: p1, package2: p2, conflict_type: t, description: d, suggested_resolution: Some(s) }
}

/// Appends the reports of the specifications `cs` of `owner`.
fn push_spec_reports(out: &mut Vec<ConflictReport>, ps: &Vec<ResolvedPackage>, owner: &String, cs: &Vec<ConflictSpec>)
    ensures
        report_views(final(out)@) == report_views(old(out)@) + spec_reports(ps@, owner@, cs@),
{
    let ghost start = report_views(out@);
    let mut i: usize = 0;
    while i < cs.len()
        invariant
            i <= cs@.len(),
            report_views(out@) == start + spec_reports(ps@, owner@, cs@.take(i as int)),
        decreases cs.len() - i,
    {
        let ghost before = report_views(out@);
        assert(cs@.take(i + 1).drop_last() =~= cs@.take(i as int));
        match find_conflicting(ps, &cs[i]) {
            Some(k) => {
                let q = &ps[k];
                let mut sug = concat2("Remove ", q.name.as_str());
                crate::text::append_str(&mut sug, " or choose a different version");
                let rep = make_report(owner.clone(), q.name.clone(), ConflictType::ExplicitConflict, cs[i].reason.clone(), sug);
                out.push(rep);
                assert(report_views(out@) =~= before + seq![report_view(rep)]);
            },
            None => {
                assert(report_views(out@) =~= before + Seq::empty());
            },
        }
        i = i + 1;
    }
    assert(cs@.take(cs@.len() as int) =~= cs@);
}

/// The conflicts among resolved packages (see `conflicts_of`).
pub fn detect_conflicts(packages: &Vec<ResolvedPackage>) -> (r: Vec<ConflictReport>)
    ensures
        report_views(r@) == conflicts_of(packages@),
{
    let mut out: Vec<ConflictReport> = Vec::new();
    let mut i: usize = 0;
    assert(report_views(out@) =~= explicit_reports(packages@, packages@.take(0)));
    while i < packages.len()
        invariant
            i <= packages@.len(),
            report_views(out@) == explicit_reports(packages@, packages@.take(i as int)),
        decreases packages.len() - i,
    {
        let p = &packages[i];
        assert(packages@.take(i + 1).drop_last() =~= packages@.take(i as int));
        let ghost at_p = report_views(out@);
        let mut d: usize = 0;
        while d < p.dependencies.len()
            invariant
                d <= p.dependencies@.len(),
                report_views(out@) == at_p + dependency_reports(packages@, p.name@, p.dependencies@.take(d as int)),
            decreases p.dependencies.len() - d,
        {
            assert(p.dependencies@.take(d + 1).drop_last() =~= p.dependencies@.take(d as int));
            push_spec_reports(&mut out, packages, &p.name, &p.dependencies[d].conflicts);
            d = d + 1;
        }
        assert(p.dependencies@.take(p.dependencies@.len() as int) =~= p.dependencies@);
        i = i + 1;
    }
    assert(packages@.take(packages@.len() as int) =~= packages@);
    let ghost explicit = report_views(out@);
    let ghost names = names_of(packages@);
    let mut u: Vec<String> = Vec::new();
    let mut j: usize = 0;
    while j < packages.len()
        invariant
            j <= packages@.len(),
            names == names_of(packages@),
            views(u@) == firsts(names.take(j as int)),
        decreases packages.len() - j,
    {
        let name = &packages[j].name;
        assert(names.take(j + 1).drop_last() =~= names.take(j as int));
        assert(names.take(j + 1).last() == name@);
        let ghost seen = names.take(j as int);
        match index_in(&u, name.as_str()) {
            Some(k) => {
                assert(views(u@)[k as int] == name@);
                assert(seen.contains(name@)) by {
                    lemma_firsts_members(seen, name@);
                }
            },
            None => {
                assert(!seen.contains(name@)) by {
                    if seen.contains(name@) {
                        lemma_firsts_members(seen, name@);
                        let t = choose|t: int| 0 <= t < views(u@).len() && views(u@)[t] == name@;
                        assert(u@[t]@ == name@);
                    }
                }
                let ghost u0 = u@;
                u.push(name.clone());
                assert(views(u@) =~= views(u0).push(name@));
            },
        }
        j = j + 1;
    }
    assert(names.take(packages@.len() as int) =~= names);
    let mut k: usize = 0;
    while k < u.len()
        invariant
            k <= u@.len(),
            names == names_of(packages@),
            report_views(out@) == explicit + twice_among(views(u@).take(k as int), names).map_values(|x: Seq<char>| group_report(x)),
        decreases u.len() - k,
    {
        let ghost before = report_views(out@);
        assert(views(u@).take(k + 1).drop_last() =~= views(u@).take(k as int));
        let x = &u[k];
        assert(views(u@).take(k + 1).last() == x@);
        let ghost tk = twice_among(views(u@).take(k as int), names);
        if occurs_twice_exec(packages, x.as_str()) {
            assert(twice_among(views(u@).take(k + 1), names) == tk.push(x@));
            assert(tk.push(x@).map_values(|y: Seq<char>| group_report(y)) =~= tk.map_values(|y: Seq<char>| group_report(y)).push(group_report(x@)));
            let mut desc = concat2("Multiple versions of ", x.as_str());
            crate::text::append_str(&mut desc, " requested");
            let rep = make_report(x.clone(), x.clone(), ConflictType::VersionIncompatible, desc, owned("Choose a single compatible version"));
            assert(report_view(rep) == group_report(x@));
            let ghost o0 = out@;
            out.push(rep);
            assert(report_views(out@) =~= report_views(o0).push(group_report(x@)));
            assert(report_views(out@) =~= explicit + twice_among(views(u@).take(k + 1), names).map_values(|y: Seq<char>| group_report(y)));
        } else {
            assert(twice_among(views(u@).take(k + 1), names) == tk);
            assert(report_views(out@) =~= explicit + twice_among(views(u@).take(k + 1), names).map_values(|y: Seq<char>| group_report(y)));
        }
        k = k + 1;
    }
    assert(views(u@).take(u@.len() as int) =~= views(u@));
    out
}

/// The texts of `firsts(s)` are those of `s`.
proof fn lemma_firsts_members(s: Seq<Seq<char>>, x: Seq<char>)
    ensures
        firsts(s).contains(x) <==> s.contains(x),
    decreases s.len(),
{
    if s.len() > 0 {
        lemma_firsts_members(s.drop_last(), x);
        let p = s.drop_last();
        if s.contains(x) && !p.contains(x) {
            let k = choose|k: int| 0 <= k < s.len() && s[k] == x;
            if k < s.len() - 1 {
                assert(p[k] == x);
            }
        }
        if p.contains(x) {
            let k = choose|k: int| 0 <= k < p.len() && p[k] == x;
            assert(s[k] == x);
        }
        if !p.contains(s.last()) {
            assert(firsts(s) == firsts(p).push(s.last()));
            if firsts(s).contains(x) && !firsts(p).contains(x) {
                let k = choose|k: int| 0 <= k < firsts(s).len() && firsts(s)[k] == x;
                if k < firsts(p).len() {
                    assert(firsts(p)[k] == x);
                }
            }
            if firsts(p).contains(x) {
                let k = choose|k: int| 0 <= k < firsts(p).len() && firsts(p)[k] == x;
                assert(firsts(s)[k] == x);
            }
            if x == s.last() {
                assert(firsts(s)[firsts(p).len() as int] == x);
            }
        }
    }
}

/// Whether two packages carry the name `x`.
fn occurs_twice_exec(ps: &Vec<ResolvedPackage>, x: &str) -> (r: bool)
    ensures
        r == occurs_twice(names_of(ps@), x@),
{
    let ghost s = names_of(ps@);
    let mut first: Option<usize> = None;
    let mut i: usize = 0;
    while i < ps.len()
        invariant
            i <= ps@.len(),
            s == names_of(ps@),
            match first {
                Some(a) => a < i && s[a as int] == x@ && forall|b: int| 0 <= b < i && b != a ==> s[b] != x@,
                None => forall|b: int| 0 <= b < i ==> s[b] != x@,
            },
        decreases ps.len() - i,
    {
        if text_eq(ps[i].name.as_str(), x) {
            match first {
                Some(a) => {
                    assert(s[a as int] == x@ && s[i as int] == x@);
                    return true;
                },
                None => {
                    first = Some(i);
                },
            }
        }
        i = i + 1;
    }
    proof {
        if occurs_twice(s, x@) {
            let (a, b) = choose|a: int, b: int| 0 <= a < b < s.len() && s[a] == x@ && s[b] == x@;
            match first {
                Some(f) => {
                    if a != f as int {
                        assert(a < f || a > f);
                    }
                },
                None => {},
            }
        }
    }
    false
}

/// The sum of the known download sizes of some packages.
pub open spec fn size_sum(ps: Seq<ResolvedPackage>) -> nat
    decreases ps.len(),
{
    if ps.len() == 0 {
        0
    } else {
        size_sum(ps.drop_last()) + match ps.last().size {
            Some(x) => x as nat,
            None => 0nat,
        }
    }
}

/// The total download size of an install order: the sum of the known sizes.
pub fn total_size(packages: &Vec<ResolvedPackage>) -> (r: u64)
    requires
        size_sum(packages@) <= u64::MAX,
    ensures
        r == size_sum(packages@),
{
    let mut t: u64 = 0;
    let mut i: usize = 0;
    while i < packages.len()
        invariant
            i <= packages@.len(),
            t == size_sum(packages@.take(i as int)),
            size_sum(packages@) <= u64::MAX,
        decreases packages.len() - i,
    {
        assert(packages@.take(i + 1).drop_last() =~= packages@.take(i as int));
        proof {
            lemma_size_sum_prefix(packages@, i + 1);
        }
        match packages[i].size {
            Some(x) => {
                t = t + x;
            },
            None => {},
        }
        i = i + 1;
    }
    assert(packages@.take(packages@.len() as int) =~= packages@);
    t
}

/// The sizes of a prefix sum to no more than those of the whole.
proof fn lemma_size_sum_prefix(ps: Seq<ResolvedPackage>, k: int)
    requires
        0 <= k <= ps.len(),
    ensures
        size_sum(ps.take(k)) <= size_sum(ps),
    decreases ps.len() - k,
{
    if k < ps.len() {
        lemma_size_sum_prefix(ps, k + 1);
        assert(ps.take(k + 1).drop_last() =~= ps.take(k));
    } else {
        assert(ps.take(k) =~= ps);
    }
}


/// A conflict rule as plain values.
pub open spec fn conflict_spec_view(c: ConflictSpec) -> (Seq<char>, Seq<char>, Seq<char>) {
    (c.package@, c.version_range@, c.reason@)
}

/// A provided name as plain values.
pub open spec fn provide_view(p: ProvideSpec) -> (Seq<char>, Seq<char>) {
    (p.virtual_package@, p.version@)
}

/// A dependency as plain values.
pub open spec fn dependency_view(d: Dependency) -> (
    Seq<char>,
    Seq<char>,
    Seq<char>,
    bool,
    Seq<(Seq<char>, Seq<char>, Seq<char>)>,
    Seq<(Seq<char>, Seq<char>)>,
    Seq<Seq<char>>,
) {
    (
        d.name@,
        d.version_req@,
        d.box_type@,
        d.optional,
        d.conflicts@.map_values(|c: ConflictSpec| conflict_spec_view(c)),
        d.provides@.map_values(|p: ProvideSpec| provide_view(p)),
        views(d.alternatives@),
    )
}

/// An optional text as plain characters.
pub open spec fn opt_view(o: Option<String>) -> Option<Seq<char>> {
    match o {
        Some(t) => Some(t@),
        None => None,
    }
}

/// A package as plain values.
pub open spec fn package_view(p: ResolvedPackage) -> (
    Seq<char>,
    Seq<char>,
    Seq<char>,
    Seq<(Seq<char>, Seq<char>, Seq<char>, bool, Seq<(Seq<char>, Seq<char>, Seq<char>)>, Seq<(Seq<char>, Seq<char>)>, Seq<Seq<char>>)>,
    Option<Seq<char>>,
    usize,
    Option<u64>,
    bool,
    Seq<Seq<char>>,
) {
    (
        p.name@,
        p.version@,
        p.box_type@,
        p.dependencies@.map_values(|d: Dependency| dependency_view(d)),
        opt_view(p.source_url),
        p.install_order,
        p.size,
        p.is_virtual,
        views(p.replaces@),
    )
}

/// A copy of some strings.
fn copy_strings(v: &Vec<String>) -> (r: Vec<String>)
    ensures
        views(r@) == views(v@),
{
    let mut r: Vec<String> = Vec::new();
    let mut i: usize = 0;
    while i < v.len()
        invariant
            i <= v@.len(),
            r@.len() == i,
            forall|k: int| 0 <= k < i ==> #[trigger] r@[k]@ == v@[k]@,
        decreases v.len() - i,
    {
        r.push(v[i].clone());
        i = i + 1;
    }
    assert(views(r@) =~= views(v@));
    r
}

/// A copy of a dependency.
fn copy_dependency(d: &Dependency) -> (r: Dependency)
    ensures
        dependency_view(r) == dependency_view(*d),
{
    let mut conflicts: Vec<ConflictSpec> = Vec::new();
    let mut i: usize = 0;
    while i < d.conflicts.len()
        invariant
            i <= d.conflicts@.len(),
            conflicts@.len() == i,
            forall|k: int| 0 <= k < i ==> conflict_spec_view(#[trigger] conflicts@[k]) == conflict_spec_view(d.conflicts@[k]),
        decreases d.conflicts.len() - i,
    {
        let c = &d.conflicts[i];
        conflicts.push(ConflictSpec { package: c.package.clone(), version_range: c.version_range.clone(), reason: c.reason.clone() });
        i = i + 1;
    }
    let mut provides: Vec<ProvideSpec> = Vec::new();
    let mut j: usize = 0;
    while j < d.provides.len()
        invariant
            j <= d.provides@.len(),
            provides@.len() == j,
            forall|k: int| 0 <= k < j ==> provide_view(#[trigger] provides@[k]) == provide_view(d.provides@[k]),
        decreases d.provides.len() - j,
    {
        let p = &d.provides[j];
        provides.push(ProvideSpec { virtual_package: p.virtual_package.clone(), version: p.version.clone() });
        j = j + 1;
    }
    let r = Dependency {
        name: d.name.clone(),
        version_req: d.version_req.clone(),
        box_type: d.box_type.clone(),
        optional: d.optional,
        conflicts,
        provides,
        alternatives: copy_strings(&d.alternatives),
    };
    assert(r.conflicts@.map_values(|c: ConflictSpec| conflict_spec_view(c)) =~= d.conflicts@.map_values(
        |c: ConflictSpec| conflict_spec_view(c),
    ));
    assert(r.provides@.map_values(|p: ProvideSpec| provide_view(p)) =~= d.provides@.map_values(|p: ProvideSpec| provide_view(p)));
    r
}

/// A copy of some dependencies.
fn copy_dependencies(v: &Vec<Dependency>) -> (r: Vec<Dependency>)
    ensures
        r@.map_values(|d: Dependency| dependency_view(d)) == v@.map_values(|d: Dependency| dependency_view(d)),
{
    let mut r: Vec<Dependency> = Vec::new();
    let mut i: usize = 0;
    while i < v.len()
        invariant
            i <= v@.len(),
            r@.len() == i,
            forall|k: int| 0 <= k < i ==> dependency_view(#[trigger] r@[k]) == dependency_view(v@[k]),
        decreases v.len() - i,
    {
        r.push(copy_dependency(&v[i]));
        i = i + 1;
    }
    assert(r@.map_values(|d: Dependency| dependency_view(d)) =~= v@.map_values(|d: Dependency| dependency_view(d)));
    r
}

/// A copy of a package.
fn copy_package(p: &ResolvedPackage) -> (r: ResolvedPackage)
    ensures
        package_view(r) == package_view(*p),
        r.name == p.name,
        r.version == p.version,
{
    ResolvedPackage {
        name: p.name.clone(),
        version: p.version.clone(),
        box_type: p.box_type.clone(),
        dependencies: copy_dependencies(&p.dependencies),
        source_url: match &p.source_url {
            Some(u) => Some(u.clone()),
            None => None,
        },
        install_order: p.install_order,
        size: p.size,
        is_virtual: p.is_virtual,
        replaces: copy_strings(&p.replaces),
    }
}

/// The package in which a name is offered: version 1.0.0 from apt, with
/// no dependencies, one mebibyte, not virtual, replacing nothing.
pub open spec fn offered(p: ResolvedPackage, name: Seq<char>) -> bool {
    &&& p.name@ == name
    &&& p.version@ == "1.0.0"@
    &&& p.box_type@ == "apt"@
    &&& p.dependencies@.len() == 0
    &&& p.source_url is None
    &&& p.install_order == 0
    &&& p.size == Some(1048576u64)
    &&& !p.is_virtual
    &&& p.replaces@.len() == 0
}

/// What `semver` says of whether the version written `a` comes before the
/// one written `b` (`None` where either does not parse).
pub uninterp spec fn semver_precedes(a: Seq<char>, b: Seq<char>) -> Option<bool>;

/// `<` on the versions that `semver::Version::parse` reads from `a` and
/// `b` (`None` where either does not parse). The result is named by
/// `semver_precedes`.
#[verifier::external_body]
fn version_precedes(a: &str, b: &str) -> (r: Option<bool>)
    ensures
        r == semver_precedes(a@, b@),
{
    match (semver::Version::parse(a), semver::Version::parse(b)) {
        (Ok(x), Ok(y)) => Some(x < y),
        _ => None,
    }
}

/// How `semver` writes the requirement that it reads from `req` (`None`
/// where it does not parse).
pub uninterp spec fn semver_req_text(req: Seq<char>) -> Option<Seq<char>>;

/// The `Display` text of the requirement that `semver::VersionReq::parse`
/// reads from `req` (`None` where it does not parse). The result is named
/// by `semver_req_text`.
#[verifier::external_body]
pub(crate) fn requirement_text(req: &str) -> (r: Option<String>)
    ensures
        match r {
            Some(t) => semver_req_text(req@) == Some(t@),
            None => semver_req_text(req@) is None,
        },
{
    match semver::VersionReq::parse(req) {
        Ok(q) => Some(q.to_string()),
        Err(_) => None,
    }
}

/// How a requirement reads in messages: as `semver` writes it, or as
/// given where it does not parse.
pub open spec fn req_shown(req: Seq<char>) -> Seq<char> {
    match semver_req_text(req) {
        Some(t) => t,
        None => req,
    }
}

/// How a requirement reads in messages.
fn req_shown_exec(req: &str) -> (r: String)
    ensures
        r@ == req_shown(req@),
{
    match requirement_text(req) {
        Some(t) => t,
        None => owned(req),
    }
}

/// The version written `a` comes before the one written `b`.
pub open spec fn newer(a: Seq<char>, b: Seq<char>) -> bool {
    semver_precedes(a, b) == Some(true)
}

/// The version written `v` meets the requirement, where there is one.
pub open spec fn meets(req: Option<Seq<char>>, v: Seq<char>) -> bool {
    match req {
        None => true,
        Some(q) => semver_match(q, v) == Some(true),
    }
}

/// The packages whose versions meet the requirement, in order.
pub open spec fn meeting(vs: Seq<ResolvedPackage>, req: Option<Seq<char>>) -> Seq<ResolvedPackage>
    decreases vs.len(),
{
    if vs.len() == 0 {
        Seq::empty()
    } else {
        meeting(vs.drop_last(), req) + if meets(req, vs.last().version@) {
            seq![vs.last()]
        } else {
            Seq::empty()
        }
    }
}

/// The candidate at `i` is one a strategy prefers: no other candidate is
/// newer (latest, user-guided), older (conservative), or has fewer
/// dependencies (minimal).
pub open spec fn preferred(s: ResolutionStrategy, c: Seq<ResolvedPackage>, i: int) -> bool {
    match s {
        ResolutionStrategy::Conservative => forall|j: int|
            0 <= j < c.len() && j != i ==> !newer(#[trigger] c[j].version@, c[i].version@),
        ResolutionStrategy::Minimal => forall|j: int|
            0 <= j < c.len() && j != i ==> c[i].dependencies@.len() <= (#[trigger] c[j]).dependencies@.len(),
        _ => forall|j: int| 0 <= j < c.len() && j != i ==> !newer(c[i].version@, #[trigger] c[j].version@),
    }
}

/// The first position from `k` on of a candidate the strategy prefers (as
/// the first after a stable sort by its order).
pub open spec fn first_preferred(s: ResolutionStrategy, c: Seq<ResolvedPackage>, k: int) -> Option<int>
    decreases c.len() - k,
{
    if k < 0 || k >= c.len() {
        None
    } else if preferred(s, c, k) {
        Some(k)
    } else {
        first_preferred(s, c, k + 1)
    }
}

/// An error of resolution: one of the library's errors, or a plain message.
pub enum ResolveError {
    Failed(OmniError),
    Other(String),
}

/// The requirement text of an optional requirement.
pub open spec fn opt_str(o: Option<&str>) -> Option<Seq<char>> {
    match o {
        Some(t) => Some(t@),
        None => None,
    }
}

/// Whether the candidate at `i` is one the strategy prefers.
fn is_preferred(s: ResolutionStrategy, c: &Vec<ResolvedPackage>, i: usize) -> (r: bool)
    requires
        i < c@.len(),
    ensures
        r == preferred(s, c@, i as int),
{
    let mut j: usize = 0;
    while j < c.len()
        invariant
            i < c@.len(),
            j <= c@.len(),
            match s {
                ResolutionStrategy::Conservative => forall|t: int|
                    0 <= t < j && t != i ==> !newer(#[trigger] c@[t].version@, c@[i as int].version@),
                ResolutionStrategy::Minimal => forall|t: int|
                    0 <= t < j && t != i ==> c@[i as int].dependencies@.len() <= (#[trigger] c@[t]).dependencies@.len(),
                _ => forall|t: int| 0 <= t < j && t != i ==> !newer(c@[i as int].version@, #[trigger] c@[t].version@),
            },
        decreases c.len() - j,
    {
        if j == i {
            j = j + 1;
            continue;
        }
        let ok = match s {
            ResolutionStrategy::Conservative => version_precedes(c[j].version.as_str(), c[i].version.as_str()) != Some(true),
            ResolutionStrategy::Minimal => c[i].dependencies.len() <= c[j].dependencies.len(),
            _ => version_precedes(c[i].version.as_str(), c[j].version.as_str()) != Some(true),
        };
        if !ok {
            return false;
        }
        j = j + 1;
    }
    true
}

/// Resolves dependencies under a strategy, at most `max_depth` levels
/// below the packages requested.
#[derive(Debug, Clone)]
pub struct AdvancedDependencyResolver {
    pub strategy: ResolutionStrategy,
    pub max_depth: usize,
}

impl AdvancedDependencyResolver {
    /// A resolver with the given strategy, going at most fifty levels deep.
    pub fn new(strategy: ResolutionStrategy) -> (r: Self)
        ensures
            r.strategy == strategy,
            r.max_depth == 50,
    {
        AdvancedDependencyResolver { strategy, max_depth: 50 }
    }

    /// The versions in which a package is offered: for now a single one,
    /// 1.0.0 from apt.
    pub fn get_available_versions(&self, package_name: &str) -> (r: Vec<ResolvedPackage>)
        ensures
            r@.len() == 1,
            offered(r@[0], package_name@),
    {
        vec![
            ResolvedPackage {
                name: owned(package_name),
                version: owned("1.0.0"),
                box_type: owned("apt"),
                dependencies: Vec::new(),
                source_url: None,
                install_order: 0,
                size: Some(1048576u64),
                is_virtual: false,
                replaces: Vec::new(),
            },
        ]
    }

    /// The version chosen among those offered: of those that meet the
    /// requirement (where there is one), the first that the strategy
    /// prefers. An error where none is offered, or none meets the
    /// requirement and is preferred.
    pub fn select_best_version(&self, versions: Vec<ResolvedPackage>, constraint: Option<&str>) -> (r: Result<ResolvedPackage, ResolveError>)
        ensures
            match r {
                Ok(p) => exists|i: int|
                    first_preferred(self.strategy, meeting(versions@, opt_str(constraint)), 0) == Some(i) && p == meeting(
                        versions@,
                        opt_str(constraint),
                    )[i],
                Err(ResolveError::Other(m)) => m@ == if versions@.len() == 0 {
                    "No versions available"@
                } else {
                    "No versions satisfy constraints"@
                } && (versions@.len() == 0 || first_preferred(self.strategy, meeting(versions@, opt_str(constraint)), 0) is None),
                Err(ResolveError::Failed(_)) => false,
            },
    {
        if versions.len() == 0 {
            return Err(ResolveError::Other(owned("No versions available")));
        }
        let ghost all = versions@;
        let ghost req = opt_str(constraint);
        let n = versions.len();
        let mut rest = versions;
        let mut cands: Vec<ResolvedPackage> = Vec::new();
        let mut k: usize = 0;
        assert(rest@ =~= all.skip(0));
        while k < n
            invariant
                n == all.len(),
                k <= n,
                rest@ == all.skip(k as int),
                cands@ == meeting(all.take(k as int), req),
                req == opt_str(constraint),
            decreases n - k,
        {
            assert(all.take(k + 1).drop_last() =~= all.take(k as int));
            let p = rest.remove(0);
            assert(p == all[k as int]);
            assert(rest@ =~= all.skip(k + 1));
            let keep = match constraint {
                Some(q) => requirement_matches(q, p.version.as_str()) == Some(true),
                None => true,
            };
            let ghost before = cands@;
            if keep {
                cands.push(p);
                assert(cands@ =~= before + seq![all[k as int]]);
            } else {
                assert(before + Seq::empty() =~= before);
            }
            k = k + 1;
        }
        assert(all.take(n as int) =~= all);
        let ghost c = cands@;
        let mut i: usize = 0;
        assert(all == versions@);
        while i < cands.len()
            invariant
                c == cands@,
                c == meeting(all, req),
                all == versions@,
                req == opt_str(constraint),
                i <= c.len(),
                first_preferred(self.strategy, c, 0) == first_preferred(self.strategy, c, i as int),
            decreases cands.len() - i,
        {
            if is_preferred(self.strategy, &cands, i) {
                assert(first_preferred(self.strategy, c, i as int) == Some(i as int));
                let p = cands.remove(i);
                assert(p == c[i as int]);
                return Ok(p);
            }
            i = i + 1;
        }
        Err(ResolveError::Other(owned("No versions satisfy constraints")))
    }
}


/// A node of the dependency graph: a package with its chosen version, its
/// depth below the packages requested, and whether it was requested.
#[derive(Debug, Clone)]
pub struct GraphNode {
    pub package: String,
    pub version: String,
    pub depth: usize,
    pub is_root: bool,
}

/// The dependency graph: one node per package name, and the edges.
#[derive(Debug, Clone)]
pub struct DependencyGraph {
    pub nodes: Vec<GraphNode>,
    pub edges: Vec<GraphEdge>,
}

/// What resolution has chosen so far: one package per name, the warnings
/// given, and whether optional dependencies are followed.
#[derive(Debug, Clone)]
pub struct ResolutionState {
    pub selected_packages: Vec<ResolvedPackage>,
    pub warnings: Vec<String>,
    pub include_optional: bool,
}

impl ResolutionState {
    /// Nothing chosen yet, and optional dependencies not followed.
    pub fn new() -> (r: Self)
        ensures
            r.selected_packages@.len() == 0,
            r.warnings@.len() == 0,
            !r.include_optional,
    {
        ResolutionState { selected_packages: Vec::new(), warnings: Vec::new(), include_optional: false }
    }
}

/// The names of some graph nodes.
pub open spec fn node_names(ns: Seq<GraphNode>) -> Seq<Seq<char>> {
    ns.map_values(|n: GraphNode| n.package@)
}

/// The nodes with `n` put in: in place of the node of its name, or last.
pub open spec fn with_node(ns: Seq<GraphNode>, n: GraphNode) -> Seq<GraphNode> {
    match first_index(node_names(ns), n.package@) {
        Some(i) => ns.update(i, n),
        None => ns.push(n),
    }
}

/// The packages with `p` put in: in place of the package of its name, or
/// last.
pub open spec fn with_package(ps: Seq<ResolvedPackage>, p: ResolvedPackage) -> Seq<ResolvedPackage> {
    match first_index(names_of(ps), p.name@) {
        Some(i) => ps.update(i, p),
        None => ps.push(p),
    }
}

/// Each name is chosen at most once, in the version in which it is
/// offered.
pub open spec fn state_ok(st: ResolutionState) -> bool {
    &&& distinct_texts(names_of(st.selected_packages@))
    &&& forall|k: int| 0 <= k < st.selected_packages@.len() ==> offered(
        #[trigger] st.selected_packages@[k],
        st.selected_packages@[k].name@,
    )
}

/// No two nodes have one name.
pub open spec fn graph_ok(g: DependencyGraph) -> bool {
    distinct_texts(node_names(g.nodes@))
}

/// The first position of a text is where it first occurs.
proof fn lemma_first_index_at(s: Seq<Seq<char>>, x: Seq<char>, i: int)
    requires
        0 <= i < s.len(),
        s[i] == x,
        forall|j: int| 0 <= j < i ==> s[j] != x,
    ensures
        first_index(s, x) == Some(i),
{
    assert(s.contains(x));
    let c = choose|c: int| 0 <= c < s.len() && s[c] == x && forall|j: int| 0 <= j < c ==> s[j] != x;
    if c < i {
        assert(s[c] != x);
    }
    if c > i {
        assert(s[i] != x);
    }
}

/// Puts a node in.
fn insert_node(nodes: &mut Vec<GraphNode>, n: GraphNode)
    ensures
        final(nodes)@ == with_node(old(nodes)@, n),
{
    let ghost ns = node_names(nodes@);
    let mut i: usize = 0;
    while i < nodes.len()
        invariant
            i <= nodes@.len(),
            ns == node_names(nodes@),
            nodes@ == old(nodes)@,
            forall|j: int| 0 <= j < i ==> ns[j] != n.package@,
        decreases nodes.len() - i,
    {
        if text_eq(nodes[i].package.as_str(), n.package.as_str()) {
            proof {
                lemma_first_index_at(ns, n.package@, i as int);
            }
            nodes.set(i, n);
            return;
        }
        i = i + 1;
    }
    assert(!ns.contains(n.package@));
    nodes.push(n);
}

/// Puts a package in.
fn insert_package(ps: &mut Vec<ResolvedPackage>, p: ResolvedPackage)
    ensures
        final(ps)@ == with_package(old(ps)@, p),
{
    let ghost ns = names_of(ps@);
    let mut i: usize = 0;
    while i < ps.len()
        invariant
            i <= ps@.len(),
            ns == names_of(ps@),
            ps@ == old(ps)@,
            forall|j: int| 0 <= j < i ==> ns[j] != p.name@,
        decreases ps.len() - i,
    {
        if text_eq(ps[i].name.as_str(), p.name.as_str()) {
            proof {
                lemma_first_index_at(ns, p.name@, i as int);
            }
            ps.set(i, p);
            return;
        }
        i = i + 1;
    }
    assert(!ns.contains(p.name@));
    ps.push(p);
}

/// Putting a package in keeps the names distinct and adds its name.
proof fn lemma_with_package(ps: Seq<ResolvedPackage>, p: ResolvedPackage)
    requires
        distinct_texts(names_of(ps)),
    ensures
        distinct_texts(names_of(with_package(ps, p))),
        names_of(with_package(ps, p)) == if names_of(ps).contains(p.name@) {
            names_of(ps)
        } else {
            names_of(ps).push(p.name@)
        },
        forall|k: int| 0 <= k < with_package(ps, p).len() ==> #[trigger] with_package(ps, p)[k] == p || with_package(ps, p)[k]
            == ps[k],
{
    let ns = names_of(ps);
    match first_index(ns, p.name@) {
        Some(i) => {
            let c = choose|c: int| 0 <= c < ns.len() && ns[c] == p.name@ && forall|j: int| 0 <= j < c ==> ns[j] != p.name@;
            assert(names_of(with_package(ps, p)) =~= ns);
        },
        None => {
            assert(names_of(with_package(ps, p)) =~= ns.push(p.name@));
        },
    }
}

/// Putting a node in keeps the names distinct.
proof fn lemma_with_node(ns: Seq<GraphNode>, n: GraphNode)
    requires
        distinct_texts(node_names(ns)),
    ensures
        distinct_texts(node_names(with_node(ns, n))),
        node_names(with_node(ns, n)) == if node_names(ns).contains(n.package@) {
            node_names(ns)
        } else {
            node_names(ns).push(n.package@)
        },
{
    let names = node_names(ns);
    match first_index(names, n.package@) {
        Some(i) => {
            let c = choose|c: int| 0 <= c < names.len() && names[c] == n.package@ && forall|j: int| 0 <= j < c ==> names[j] != n.package@;
            assert(node_names(with_node(ns, n)) =~= names);
        },
        None => {
            assert(node_names(with_node(ns, n)) =~= names.push(n.package@));
        },
    }
}

/// The requirement given for a package, where one is.
pub open spec fn constraint_for(cs: Seq<(String, String)>, name: Seq<char>) -> Option<Seq<char>> {
    match entry_for(cs, name) {
        Some(v) => Some(v@),
        None => None,
    }
}

/// The packages among `versions` that meet the requirement.
fn keep_meeting(versions: Vec<ResolvedPackage>, constraint: Option<&str>) -> (r: Vec<ResolvedPackage>)
    ensures
        r@ == meeting(versions@, opt_str(constraint)),
{
    let ghost all = versions@;
    let ghost req = opt_str(constraint);
    let n = versions.len();
    let mut rest = versions;
    let mut kept: Vec<ResolvedPackage> = Vec::new();
    let mut k: usize = 0;
    assert(rest@ =~= all.skip(0));
    while k < n
        invariant
            n == all.len(),
            k <= n,
            rest@ == all.skip(k as int),
            kept@ == meeting(all.take(k as int), req),
            req == opt_str(constraint),
        decreases n - k,
    {
        assert(all.take(k + 1).drop_last() =~= all.take(k as int));
        let p = rest.remove(0);
        assert(p == all[k as int]);
        assert(rest@ =~= all.skip(k + 1));
        let keep = match constraint {
            Some(q) => requirement_matches(q, p.version.as_str()) == Some(true),
            None => true,
        };
        let ghost before = kept@;
        if keep {
            kept.push(p);
            assert(kept@ =~= before + seq![all[k as int]]);
        } else {
            assert(before + Seq::empty() =~= before);
        }
        k = k + 1;
    }
    assert(all.take(n as int) =~= all);
    kept
}

impl AdvancedDependencyResolver {
    /// Adds a requested package: the version offered for it is chosen,
    /// where it meets the requirement given for the package, and the package
    /// becomes a root node of the graph at depth 0. An error, with nothing
    /// changed, where the version does not meet the requirement.
    pub fn add_root_package(
        &self,
        graph: &mut DependencyGraph,
        state: &mut ResolutionState,
        package_name: &str,
        constraints: &Vec<(String, String)>,
    ) -> (r: Result<(), ResolveError>)
        requires
            state_ok(*old(state)),
            graph_ok(*old(graph)),
        ensures
            state_ok(*final(state)),
            graph_ok(*final(graph)),
            final(graph).edges == old(graph).edges,
            final(state).warnings == old(state).warnings,
            final(state).include_optional == old(state).include_optional,
            meets(constraint_for(constraints@, package_name@), "1.0.0"@) ==> {
                &&& r is Ok
                &&& exists|nd: GraphNode|
                    nd.package@ == package_name@ && nd.version@ == "1.0.0"@ && nd.depth == 0 && nd.is_root
                        && final(graph).nodes@ == with_node(old(graph).nodes@, nd)
                &&& exists|p: ResolvedPackage|
                    offered(p, package_name@) && final(state).selected_packages@ == with_package(
                        old(state).selected_packages@,
                        p,
                    )
            },
            !meets(constraint_for(constraints@, package_name@), "1.0.0"@) ==> {
                &&& r matches Err(ResolveError::Other(m)) && m@ == "No versions satisfy constraints"@
                &&& *final(graph) == *old(graph)
                &&& *final(state) == *old(state)
            },
    {
        let versions = self.get_available_versions(package_name);
        if versions.len() == 0 {
            return Err(ResolveError::Failed(OmniError::PackageNotFound { package: owned(package_name) }));
        }
        let constraint: Option<&str> = match get_entry(constraints, package_name) {
            Some(c) => Some(c.as_str()),
            None => None,
        };
        assert(opt_str(constraint) == constraint_for(constraints@, package_name@));
        let ghost vs = versions@;
        assert(meeting(vs, opt_str(constraint)) =~= if meets(opt_str(constraint), "1.0.0"@) {
            seq![vs[0]]
        } else {
            Seq::<ResolvedPackage>::empty()
        }) by {
            assert(vs.drop_last() =~= Seq::<ResolvedPackage>::empty());
            assert(meeting(vs.drop_last(), opt_str(constraint)) =~= Seq::<ResolvedPackage>::empty());
            assert(vs.last() == vs[0]);
            assert(vs[0].version@ == "1.0.0"@);
            if meets(opt_str(constraint), "1.0.0"@) {
                assert(Seq::<ResolvedPackage>::empty() + seq![vs[0]] =~= seq![vs[0]]);
            } else {
                assert(Seq::<ResolvedPackage>::empty() + Seq::<ResolvedPackage>::empty() =~= Seq::<ResolvedPackage>::empty());
            }
        }
        let selected = match self.select_best_version(versions, constraint) {
            Ok(p) => p,
            Err(e) => {
                return Err(e);
            },
        };
        assert(selected == vs[0]);
        let nd = GraphNode { package: owned(package_name), version: selected.version.clone(), depth: 0, is_root: true };
        proof {
            lemma_with_node(graph.nodes@, nd);
            lemma_with_package(state.selected_packages@, selected);
        }
        insert_node(&mut graph.nodes, nd);
        let ghost sel0 = state.selected_packages@;
        insert_package(&mut state.selected_packages, selected);
        proof {
            let s1 = state.selected_packages@;
            assert forall|k: int| 0 <= k < s1.len() implies offered(#[trigger] s1[k], s1[k].name@) by {
                if s1[k] != selected {
                    assert(s1[k] == sel0[k]);
                }
            }
        }
        Ok(())
    }
}


/// What resolving a version conflict over the package `name` (chosen in
/// version `existing`, where a dependency asks for `req`) does, by
/// strategy: the conservative one skips an optional dependency with a
/// warning and refuses a required one; the latest one takes the version
/// offered where it meets the requirement and is newer, with a warning;
/// otherwise the conflict cannot be resolved.
pub open spec fn conflict_outcome(
    s: ResolutionStrategy,
    st0: ResolutionState,
    st1: ResolutionState,
    name: Seq<char>,
    req: Seq<char>,
    box_type: Seq<char>,
    optional: bool,
    existing: Seq<char>,
    r: Result<bool, ResolveError>,
) -> bool {
    if s == ResolutionStrategy::Conservative && optional {
        &&& r matches Ok(b) && !b
        &&& st1.selected_packages == st0.selected_packages
        &&& st1.include_optional == st0.include_optional
        &&& texts(st1.warnings@) == texts(st0.warnings@).push(
            "Skipping optional dependency "@ + name + " due to version conflict"@,
        )
    } else if s == ResolutionStrategy::Conservative {
        &&& r matches Err(ResolveError::Failed(OmniError::InstallationFailed { package, box_type: b, reason }))
            && package@ == name && b@ == box_type && reason@ == "Version conflict: need "@ + req_shown(req) + " but have "@
            + existing
        &&& st1 == st0
    } else if s == ResolutionStrategy::Latest && meets(Some(req), "1.0.0"@) && newer(existing, "1.0.0"@) {
        &&& r matches Ok(b) && b
        &&& exists|p: ResolvedPackage|
            offered(p, name) && st1.selected_packages@ == with_package(st0.selected_packages@, p)
        &&& st1.include_optional == st0.include_optional
        &&& texts(st1.warnings@) == texts(st0.warnings@).push(
            "Upgraded "@ + name + " from "@ + existing + " to "@ + "1.0.0"@ + " to resolve conflict"@,
        )
    } else {
        &&& r matches Err(ResolveError::Failed(OmniError::InstallationFailed { package, box_type: b, reason }))
            && package@ == name && b@ == box_type && reason@ == "Unresolvable version conflict"@
        &&& st1 == st0
    }
}

/// The packages among `vs` that meet the requirement and are newer than
/// the version `existing`, in order.
pub open spec fn upgrades(vs: Seq<ResolvedPackage>, req: Seq<char>, existing: Seq<char>) -> Seq<ResolvedPackage>
    decreases vs.len(),
{
    if vs.len() == 0 {
        Seq::empty()
    } else {
        upgrades(vs.drop_last(), req, existing) + if meets(Some(req), vs.last().version@) && newer(existing, vs.last().version@) {
            seq![vs.last()]
        } else {
            Seq::empty()
        }
    }
}

/// Whether resolving a dependency on `name` (asking for `req`) from the
/// state `st` succeeds: where the name was chosen, its version meets the
/// requirement or the conservative strategy skips the optional
/// dependency; where it was not, the version offered meets it.
pub open spec fn resolves(s: ResolutionStrategy, st: ResolutionState, name: Seq<char>, req: Seq<char>, optional: bool) -> bool {
    if names_of(st.selected_packages@).contains(name) {
        meets(Some(req), "1.0.0"@) || (s == ResolutionStrategy::Conservative && optional)
    } else {
        meets(Some(req), "1.0.0"@)
    }
}

/// The position, from `k` on, of the first alternative whose resolution
/// from the state `st` succeeds.
pub open spec fn first_resolving(
    s: ResolutionStrategy,
    st: ResolutionState,
    alts: Seq<Seq<char>>,
    req: Seq<char>,
    optional: bool,
    k: int,
) -> Option<int>
    decreases alts.len() - k,
{
    if k < 0 || k >= alts.len() {
        None
    } else if resolves(s, st, alts[k], req, optional) {
        Some(k)
    } else {
        first_resolving(s, st, alts, req, optional, k + 1)
    }
}

/// The position of the package of a name, where one has it.
fn find_selected(ps: &Vec<ResolvedPackage>, name: &str) -> (r: Option<usize>)
    ensures
        match r {
            Some(i) => i < ps@.len() && ps@[i as int].name@ == name@,
            None => !names_of(ps@).contains(name@),
        },
{
    let mut i: usize = 0;
    while i < ps.len()
        invariant
            i <= ps@.len(),
            forall|j: int| 0 <= j < i ==> ps@[j].name@ != name@,
        decreases ps.len() - i,
    {
        if text_eq(ps[i].name.as_str(), name) {
            return Some(i);
        }
        i = i + 1;
    }
    proof {
        if names_of(ps@).contains(name@) {
            let j = choose|j: int| 0 <= j < names_of(ps@).len() && names_of(ps@)[j] == name@;
            assert(ps@[j].name@ == name@);
        }
    }
    None
}

/// The error that a package cannot be installed, for a reason.
fn install_failure(package: &str, box_type: &str, reason: String) -> (r: ResolveError)
    ensures
        r matches ResolveError::Failed(OmniError::InstallationFailed { package: p, box_type: b, reason: why })
            && p@ == package@ && b@ == box_type@ && why@ == reason@,
{
    ResolveError::Failed(OmniError::InstallationFailed { package: owned(package), box_type: owned(box_type), reason })
}

impl AdvancedDependencyResolver {
    /// Resolves a version conflict over the package `name`, chosen in
    /// version `existing`, that a dependency asking for `version_req`
    /// meets (see `conflict_outcome`).
    pub fn resolve_version_conflict(
        &self,
        state: &mut ResolutionState,
        name: &str,
        version_req: &str,
        box_type: &str,
        optional: bool,
        existing: &str,
    ) -> (r: Result<bool, ResolveError>)
        requires
            state_ok(*old(state)),
        ensures
            state_ok(*final(state)),
            conflict_outcome(self.strategy, *old(state), *final(state), name@, version_req@, box_type@, optional, existing@, r),
    {
        match self.strategy {
            ResolutionStrategy::Conservative => {
                if optional {
                    let w = concat3("Skipping optional dependency ", name, " due to version conflict");
                    let ghost w0 = texts(state.warnings@);
                    state.warnings.push(w);
                    assert(texts(state.warnings@) =~= w0.push(w@));
                    return Ok(false);
                } else {
                    let req = req_shown_exec(version_req);
                    return Err(install_failure(name, box_type, concat4("Version conflict: need ", req.as_str(), " but have ", existing)));
                }
            },
            ResolutionStrategy::Latest => {
                let available = self.get_available_versions(name);
                let ghost vs = available@;
                let n = available.len();
                let mut rest = available;
                let mut compatible: Vec<ResolvedPackage> = Vec::new();
                let mut k: usize = 0;
                assert(rest@ =~= vs.skip(0));
                while k < n
                    invariant
                        n == vs.len(),
                        k <= n,
                        rest@ == vs.skip(k as int),
                        compatible@ == upgrades(vs.take(k as int), version_req@, existing@),
                    decreases n - k,
                {
                    assert(vs.take(k + 1).drop_last() =~= vs.take(k as int));
                    let p = rest.remove(0);
                    assert(p == vs[k as int]);
                    assert(rest@ =~= vs.skip(k + 1));
                    let keep = requirement_matches(version_req, p.version.as_str()) == Some(true) && version_precedes(
                        existing,
                        p.version.as_str(),
                    ) == Some(true);
                    let ghost before = compatible@;
                    if keep {
                        compatible.push(p);
                        assert(compatible@ =~= before + seq![vs[k as int]]);
                    } else {
                        assert(before + Seq::empty() =~= before);
                    }
                    k = k + 1;
                }
                assert(vs.take(n as int) =~= vs);
                assert(vs.drop_last() =~= Seq::<ResolvedPackage>::empty());
                assert(upgrades(vs.drop_last(), version_req@, existing@) =~= Seq::<ResolvedPackage>::empty());
                assert(vs.last() == vs[0]);
                if compatible.len() > 0 {
                    assert(compatible@ =~= seq![vs[0]]);
                    let mut i: usize = compatible.len();
                    while i > 0
                        invariant
                            i <= compatible@.len(),
                            compatible@ == seq![vs[0]],
                            offered(vs[0], name@),
                            state_ok(*state),
                            *state == *old(state),
                            self.strategy == ResolutionStrategy::Latest,
                            meets(Some(version_req@), "1.0.0"@),
                            newer(existing@, "1.0.0"@),
                            forall|t: int| i <= t < compatible@.len() ==> !preferred(ResolutionStrategy::Latest, compatible@, t),
                        decreases i,
                    {
                        i = i - 1;
                        if is_preferred(ResolutionStrategy::Latest, &compatible, i) {
                            let up = compatible.remove(i);
                            let ver = up.version.clone();
                            let ghost sel0 = state.selected_packages@;
                            proof {
                                lemma_with_package(sel0, up);
                            }
                            insert_package(&mut state.selected_packages, up);
                            proof {
                                let s1 = state.selected_packages@;
                                assert forall|kk: int| 0 <= kk < s1.len() implies offered(#[trigger] s1[kk], s1[kk].name@) by {
                                    if s1[kk] != up {
                                        assert(s1[kk] == sel0[kk]);
                                    }
                                }
                            }
                            let w = concat7("Upgraded ", name, " from ", existing, " to ", ver.as_str(), " to resolve conflict");
                            let ghost w0 = texts(state.warnings@);
                            state.warnings.push(w);
                            assert(texts(state.warnings@) =~= w0.push(w@));
                            return Ok(true);
                        }
                    }
                    assert(preferred(ResolutionStrategy::Latest, compatible@, 0));
                    assert(false);
                }
            },
            _ => {},
        }
        Err(install_failure(name, box_type, owned("Unresolvable version conflict")))
    }

    /// Resolves a dependency on `name` (asking for `version_req`, from
    /// `box_type`) at the given depth: `Ok(false)` where the package chosen
    /// for the name meets the requirement; a version conflict resolved
    /// (see `conflict_outcome`) where it does not; otherwise the version
    /// offered is chosen and becomes a node at that depth (`Ok(true)`),
    /// where it meets the requirement, and an error, with nothing changed,
    /// where it does not.
    pub fn resolve_dependency(
        &self,
        graph: &mut DependencyGraph,
        state: &mut ResolutionState,
        name: &str,
        version_req: &str,
        box_type: &str,
        optional: bool,
        depth: usize,
    ) -> (r: Result<bool, ResolveError>)
        requires
            state_ok(*old(state)),
            graph_ok(*old(graph)),
        ensures
            state_ok(*final(state)),
            graph_ok(*final(graph)),
            final(graph).edges == old(graph).edges,
            final(state).include_optional == old(state).include_optional,
            r is Ok ==> names_of(final(state).selected_packages@).contains(name@),
            r is Ok <==> resolves(self.strategy, *old(state), name@, version_req@, optional),
            r is Err ==> *final(state) == *old(state) && *final(graph) == *old(graph),
            names_of(old(state).selected_packages@).contains(name@) ==> *final(graph) == *old(graph) && if meets(
                Some(version_req@),
                "1.0.0"@,
            ) {
                r matches Ok(b) && !b && *final(state) == *old(state)
            } else {
                conflict_outcome(self.strategy, *old(state), *final(state), name@, version_req@, box_type@, optional, "1.0.0"@, r)
            },
            !names_of(old(state).selected_packages@).contains(name@) ==> if meets(Some(version_req@), "1.0.0"@) {
                &&& r matches Ok(b) && b
                &&& exists|nd: GraphNode|
                    nd.package@ == name@ && nd.version@ == "1.0.0"@ && nd.depth == depth && !nd.is_root
                        && final(graph).nodes@ == with_node(old(graph).nodes@, nd)
                &&& exists|p: ResolvedPackage|
                    offered(p, name@) && final(state).selected_packages@ == old(state).selected_packages@.push(p)
                &&& final(state).warnings == old(state).warnings
            } else {
                &&& r matches Err(ResolveError::Failed(OmniError::InstallationFailed { package, box_type: b, reason }))
                    && package@ == name@ && b@ == box_type@ && reason@ == "No version satisfies requirement: "@ + req_shown(
                    version_req@,
                )
                &&& *final(graph) == *old(graph)
                &&& *final(state) == *old(state)
            },
    {
        match find_selected(&state.selected_packages, name) {
            Some(i) => {
                let existing = state.selected_packages[i].version.clone();
                assert(existing@ == "1.0.0"@);
                assert(names_of(state.selected_packages@)[i as int] == name@);
                if requirement_matches(version_req, existing.as_str()) == Some(true) {
                    return Ok(false);
                }
                let r = self.resolve_version_conflict(state, name, version_req, box_type, optional, existing.as_str());
                proof {
                    if r is Ok {
                        if !(self.strategy == ResolutionStrategy::Conservative && optional) {
                            let p = choose|p: ResolvedPackage|
                                offered(p, name@) && state.selected_packages@ == with_package(old(state).selected_packages@, p);
                            lemma_with_package(old(state).selected_packages@, p);
                        }
                    }
                }
                r
            },
            None => {
                let versions = self.get_available_versions(name);
                if versions.len() == 0 {
                    return Err(ResolveError::Failed(OmniError::PackageNotFound { package: owned(name) }));
                }
                let ghost vs = versions@;
                assert(vs.drop_last() =~= Seq::<ResolvedPackage>::empty());
                assert(meeting(vs.drop_last(), Some(version_req@)) =~= Seq::<ResolvedPackage>::empty());
                assert(vs.last() == vs[0]);
                let compatible = keep_meeting(versions, Some(version_req));
                if compatible.len() == 0 {
                    let req = req_shown_exec(version_req);
                    return Err(install_failure(name, box_type, concat2("No version satisfies requirement: ", req.as_str())));
                }
                assert(compatible@ =~= seq![vs[0]]);
                assert(meeting(compatible@, Some(version_req@)) =~= compatible@) by {
                    assert(compatible@.drop_last() =~= Seq::<ResolvedPackage>::empty());
                    assert(meeting(compatible@.drop_last(), Some(version_req@)) =~= Seq::<ResolvedPackage>::empty());
                }
                assert(first_preferred(self.strategy, compatible@, 0) == Some(0int));
                let selected = match self.select_best_version(compatible, Some(version_req)) {
                    Ok(p) => p,
                    Err(e) => {
                        return Err(e);
                    },
                };
                assert(selected == vs[0]);
                let nd = GraphNode { package: owned(name), version: selected.version.clone(), depth, is_root: false };
                proof {
                    lemma_with_node(graph.nodes@, nd);
                    lemma_with_package(state.selected_packages@, selected);
                }
                insert_node(&mut graph.nodes, nd);
                let ghost sel0 = state.selected_packages@;
                insert_package(&mut state.selected_packages, selected);
                proof {
                    let s1 = state.selected_packages@;
                    assert(first_index(names_of(sel0), name@) is None);
                    assert forall|k: int| 0 <= k < s1.len() implies offered(#[trigger] s1[k], s1[k].name@) by {
                        if k < sel0.len() {
                            assert(s1[k] == sel0[k]);
                        }
                    }
                    assert(names_of(s1)[sel0.len() as int] == name@);
                }
                Ok(true)
            },
        }
    }

    /// Tries the alternatives of a dependency in turn, resolving each as
    /// the dependency (see `resolve_dependency`): the first that resolves
    /// without error is returned; `None` where none does.
    pub fn try_alternatives(
        &self,
        graph: &mut DependencyGraph,
        state: &mut ResolutionState,
        alternatives: &Vec<String>,
        version_req: &str,
        box_type: &str,
        optional: bool,
        depth: usize,
    ) -> (r: Result<Option<String>, ResolveError>)
        requires
            state_ok(*old(state)),
            graph_ok(*old(graph)),
        ensures
            state_ok(*final(state)),
            graph_ok(*final(graph)),
            final(graph).edges == old(graph).edges,
            final(state).include_optional == old(state).include_optional,
            match r {
                Ok(Some(a)) => views(alternatives@).contains(a@) && names_of(final(state).selected_packages@).contains(a@)
                    && exists|i: int|
                    first_resolving(self.strategy, *old(state), views(alternatives@), version_req@, optional, 0) == Some(i)
                        && views(alternatives@)[i] == a@,
                Ok(None) => first_resolving(self.strategy, *old(state), views(alternatives@), version_req@, optional, 0) is None
                    && *final(state) == *old(state) && *final(graph) == *old(graph),
                Err(_) => false,
            },
    {
        let ghost alts = views(alternatives@);
        let mut i: usize = 0;
        while i < alternatives.len()
            invariant
                i <= alternatives@.len(),
                alts == views(alternatives@),
                alts.len() == alternatives@.len(),
                state_ok(*state),
                graph_ok(*graph),
                *state == *old(state),
                *graph == *old(graph),
                first_resolving(self.strategy, *old(state), alts, version_req@, optional, 0) == first_resolving(
                    self.strategy,
                    *old(state),
                    alts,
                    version_req@,
                    optional,
                    i as int,
                ),
            decreases alternatives.len() - i,
        {
            assert(alts[i as int] == alternatives@[i as int]@);
            match self.resolve_dependency(graph, state, alternatives[i].as_str(), version_req, box_type, optional, depth) {
                Ok(_) => {
                    assert(first_resolving(self.strategy, *old(state), alts, version_req@, optional, i as int) == Some(
                        i as int,
                    ));
                    return Ok(Some(alternatives[i].clone()));
                },
                Err(_) => {},
            }
            i = i + 1;
        }
        Ok(None)
    }
}


/// Packages as plain values.
pub open spec fn package_views(ps: Seq<ResolvedPackage>) -> Seq<(
    Seq<char>,
    Seq<char>,
    Seq<char>,
    Seq<(Seq<char>, Seq<char>, Seq<char>, bool, Seq<(Seq<char>, Seq<char>, Seq<char>)>, Seq<(Seq<char>, Seq<char>)>, Seq<Seq<char>>)>,
    Option<Seq<char>>,
    usize,
    Option<u64>,
    bool,
    Seq<Seq<char>>,
)> {
    ps.map_values(|p: ResolvedPackage| package_view(p))
}

/// Whether the text `x` is among `v`.
fn among_texts(v: &Vec<String>, x: &str) -> (r: bool)
    ensures
        r == views(v@).contains(x@),
{
    match index_in(v, x) {
        Some(i) => {
            assert(views(v@)[i as int] == x@);
            true
        },
        None => {
            proof {
                if views(v@).contains(x@) {
                    let j = choose|j: int| 0 <= j < views(v@).len() && views(v@)[j] == x@;
                    assert(v@[j]@ == x@);
                }
            }
            false
        },
    }
}

impl AdvancedDependencyResolver {
    /// Walks the chosen packages depth first from the root nodes, resolving
    /// the dependencies of each (optional ones only where they are
    /// followed), adding an edge for each dependency newly resolved and
    /// trying the alternatives of one that fails. The packages offered have
    /// no dependencies, so the walk changes nothing and gives the chosen
    /// packages.
    pub fn resolve_with_backtracking(
        &self,
        graph: &mut DependencyGraph,
        state: &mut ResolutionState,
    ) -> (r: Result<Vec<ResolvedPackage>, ResolveError>)
        requires
            state_ok(*old(state)),
            graph_ok(*old(graph)),
            self.max_depth < usize::MAX,
            forall|i: int| 0 <= i < old(graph).nodes@.len() ==> names_of(old(state).selected_packages@).contains(
                #[trigger] old(graph).nodes@[i].package@,
            ),
        ensures
            *final(state) == *old(state),
            *final(graph) == *old(graph),
            r matches Ok(v) && package_views(v@) == package_views(old(state).selected_packages@),
    {
        let mut stack: Vec<(String, usize)> = Vec::new();
        let mut i: usize = 0;
        while i < graph.nodes.len()
            invariant
                i <= graph.nodes@.len(),
                *graph == *old(graph),
                *state == *old(state),
                forall|k: int| 0 <= k < stack@.len() ==> (#[trigger] stack@[k]).1 == 0 && names_of(state.selected_packages@).contains(
                    stack@[k].0@,
                ),
                forall|k: int| 0 <= k < old(graph).nodes@.len() ==> names_of(old(state).selected_packages@).contains(
                    #[trigger] old(graph).nodes@[k].package@,
                ),
            decreases graph.nodes.len() - i,
        {
            if graph.nodes[i].is_root {
                stack.push((graph.nodes[i].package.clone(), 0));
            }
            i = i + 1;
        }
        let mut processed: Vec<String> = Vec::new();
        while stack.len() > 0
            invariant
                *graph == *old(graph),
                *state == *old(state),
                state_ok(*state),
                graph_ok(*graph),
                self.max_depth < usize::MAX,
                forall|k: int| 0 <= k < stack@.len() ==> (#[trigger] stack@[k]).1 == 0 && names_of(state.selected_packages@).contains(
                    stack@[k].0@,
                ),
            decreases stack.len(),
        {
            let (name, depth) = stack.pop().unwrap();
            if among_texts(&processed, name.as_str()) {
                continue;
            }
            if depth > self.max_depth {
                return Err(install_failure(name.as_str(), "unknown", owned("Maximum dependency depth exceeded")));
            }
            processed.push(name.clone());
            let idx = match find_selected(&state.selected_packages, name.as_str()) {
                Some(k) => k,
                None => {
                    return Err(ResolveError::Other(concat2("Package not in resolution state: ", name.as_str())));
                },
            };
            let deps = copy_dependencies(&state.selected_packages[idx].dependencies);
            assert(deps@.len() == 0) by {
                assert(offered(state.selected_packages@[idx as int], state.selected_packages@[idx as int].name@));
                assert(deps@.map_values(|d: Dependency| dependency_view(d)).len() == 0);
            }
            let ghost s0 = stack@.len();
            let mut t: usize = 0;
            while t < deps.len()
                invariant
                    t <= deps@.len(),
                    deps@.len() == 0,
                    *graph == *old(graph),
                    *state == *old(state),
                    state_ok(*state),
                    graph_ok(*graph),
                    depth <= self.max_depth,
                    self.max_depth < usize::MAX,
                    stack@.len() == s0,
                    forall|k: int| 0 <= k < stack@.len() ==> (#[trigger] stack@[k]).1 == 0 && names_of(state.selected_packages@).contains(
                        stack@[k].0@,
                    ),
                decreases deps.len() - t,
            {
                let d = &deps[t];
                if d.optional && !state.include_optional {
                    t = t + 1;
                    continue;
                }
                match self.resolve_dependency(
                    graph,
                    state,
                    d.name.as_str(),
                    d.version_req.as_str(),
                    d.box_type.as_str(),
                    d.optional,
                    depth + 1,
                ) {
                    Ok(true) => {
                        graph.edges.push(
                            GraphEdge {
                                from: name.clone(),
                                to: d.name.clone(),
                                dependency_type: if d.optional {
                                    DependencyType::Optional
                                } else {
                                    DependencyType::Required
                                },
                                version_constraint: d.version_req.clone(),
                            },
                        );
                        stack.push((d.name.clone(), depth + 1));
                    },
                    Ok(false) => {},
                    Err(e) => {
                        match self.try_alternatives(
                            graph,
                            state,
                            &d.alternatives,
                            d.version_req.as_str(),
                            d.box_type.as_str(),
                            d.optional,
                            depth + 1,
                        ) {
                            Ok(Some(alt)) => {
                                stack.push((alt, depth + 1));
                            },
                            Ok(None) => {
                                return Err(e);
                            },
                            Err(e2) => {
                                return Err(e2);
                            },
                        }
                    },
                }
                t = t + 1;
            }
        }
        let mut out: Vec<ResolvedPackage> = Vec::new();
        let mut k: usize = 0;
        while k < state.selected_packages.len()
            invariant
                k <= state.selected_packages@.len(),
                *state == *old(state),
                *graph == *old(graph),
                out@.len() == k,
                forall|j: int| 0 <= j < k ==> package_view(#[trigger] out@[j]) == package_view(state.selected_packages@[j]),
            decreases state.selected_packages.len() - k,
        {
            out.push(copy_package(&state.selected_packages[k]));
            k = k + 1;
        }
        assert(package_views(out@) =~= package_views(old(state).selected_packages@));
        Ok(out)
    }
}


/// A resolution plan: the packages in install order, the conflicts among
/// them, the warnings given, the total download size, the dependency graph
/// and the strategy followed.
#[derive(Debug, Clone)]
pub struct ResolutionPlan {
    pub packages: Vec<ResolvedPackage>,
    pub conflicts: Vec<ConflictReport>,
    pub warnings: Vec<String>,
    pub total_size: Option<u64>,
    pub dependency_graph: DependencyGraph,
    pub resolution_strategy: ResolutionStrategy,
}

/// `std`'s `Debug` text of some cycles; nothing is claimed of it.
#[verifier::external_body]
fn cycles_text(cycles: &Vec<Vec<String>>) -> String {
    format!("{:?}", cycles)
}

/// Packages without dependencies have no explicit conflicts.
proof fn lemma_no_explicit(ps: Seq<ResolvedPackage>, qs: Seq<ResolvedPackage>)
    requires
        forall|k: int| 0 <= k < qs.len() ==> (#[trigger] qs[k]).dependencies@.len() == 0,
    ensures
        explicit_reports(ps, qs) == Seq::<(Seq<char>, Seq<char>, ConflictType, Seq<char>, Option<Seq<char>>)>::empty(),
    decreases qs.len(),
{
    if qs.len() > 0 {
        lemma_no_explicit(ps, qs.drop_last());
        assert(qs.last() == qs[qs.len() - 1]);
        assert(qs.last().dependencies@.len() == 0);
        assert(explicit_reports(ps, qs) =~= Seq::<(Seq<char>, Seq<char>, ConflictType, Seq<char>, Option<Seq<char>>)>::empty());
    }
}

/// Among distinct names none occurs twice.
proof fn lemma_none_twice(u: Seq<Seq<char>>, s: Seq<Seq<char>>)
    requires
        distinct_texts(s),
    ensures
        twice_among(u, s) == Seq::<Seq<char>>::empty(),
    decreases u.len(),
{
    if u.len() > 0 {
        lemma_none_twice(u.drop_last(), s);
        if occurs_twice(s, u.last()) {
            let (a, b) = choose|a: int, b: int| 0 <= a < b < s.len() && s[a] == u.last() && s[b] == u.last();
            assert(s[a] != s[b]);
        }
    }
}

/// Packages of one mebibyte each sum to that many mebibytes.
proof fn lemma_size_sum_all(ps: Seq<ResolvedPackage>)
    requires
        forall|k: int| 0 <= k < ps.len() ==> (#[trigger] ps[k]).size == Some(1048576u64),
    ensures
        size_sum(ps) == ps.len() * 1048576,
    decreases ps.len(),
{
    if ps.len() > 0 {
        lemma_size_sum_all(ps.drop_last());
        assert(ps.last() == ps[ps.len() - 1]);
    }
}

impl AdvancedDependencyResolver {
    /// Resolves the requested packages: each gets the version offered,
    /// where it meets the requirement given for it (the first package
    /// whose version does not fails the whole with an error); the
    /// dependencies are walked; a cycle fails the whole; and the plan holds
    /// the packages in install order, each requested name once, with the
    /// conflicts among them, the warnings, the total size, the graph and the
    /// strategy.
    pub fn resolve_dependencies(&self, package_names: &Vec<String>, constraints: &Vec<(String, String)>) -> (r: Result<
        ResolutionPlan,
        ResolveError,
    >)
        requires
            self.max_depth < usize::MAX,
            package_names@.len() * 1048576 <= u64::MAX,
        ensures
            r is Err <==> exists|i: int|
                0 <= i < package_names@.len() && !meets(constraint_for(constraints@, #[trigger] package_names@[i]@), "1.0.0"@),
            r matches Err(e) ==> e matches ResolveError::Other(m) && m@ == "No versions satisfy constraints"@,
            r matches Ok(plan) ==> {
                &&& distinct_texts(names_of(plan.packages@))
                &&& forall|i: int| 0 <= i < package_names@.len() ==> names_of(plan.packages@).contains(#[trigger] package_names@[i]@)
                &&& forall|k: int| 0 <= k < plan.packages@.len() ==> views(package_names@).contains(#[trigger] plan.packages@[k].name@)
                &&& forall|k: int| 0 <= k < plan.packages@.len() ==> {
                    let p = #[trigger] plan.packages@[k];
                    &&& p.version@ == "1.0.0"@
                    &&& p.box_type@ == "apt"@
                    &&& p.dependencies@.len() == 0
                    &&& p.source_url is None
                    &&& p.install_order == k
                    &&& p.size == Some(1048576u64)
                    &&& !p.is_virtual
                    &&& p.replaces@.len() == 0
                }
                &&& plan.conflicts@.len() == 0
                &&& plan.warnings@.len() == 0
                &&& plan.total_size == Some((plan.packages@.len() * 1048576) as u64)
                &&& plan.dependency_graph.edges@.len() == 0
                &&& distinct_texts(node_names(plan.dependency_graph.nodes@))
                &&& forall|k: int| 0 <= k < plan.dependency_graph.nodes@.len() ==> {
                    let n = #[trigger] plan.dependency_graph.nodes@[k];
                    &&& n.version@ == "1.0.0"@
                    &&& n.depth == 0
                    &&& n.is_root
                    &&& views(package_names@).contains(n.package@)
                }
                &&& plan.resolution_strategy == self.strategy
            },
    {
        let mut graph = DependencyGraph { nodes: Vec::new(), edges: Vec::new() };
        let mut state = ResolutionState::new();
        let mut i: usize = 0;
        assert(node_names(graph.nodes@) =~= names_of(state.selected_packages@));
        while i < package_names.len()
            invariant
                i <= package_names@.len(),
                state_ok(state),
                graph_ok(graph),
                graph.edges@.len() == 0,
                state.warnings@.len() == 0,
                !state.include_optional,
                node_names(graph.nodes@) == names_of(state.selected_packages@),
                forall|k: int| 0 <= k < graph.nodes@.len() ==> {
                    let n = #[trigger] graph.nodes@[k];
                    &&& n.version@ == "1.0.0"@
                    &&& n.depth == 0
                    &&& n.is_root
                },
                forall|k: int| 0 <= k < i ==> meets(constraint_for(constraints@, #[trigger] package_names@[k]@), "1.0.0"@),
                forall|k: int| 0 <= k < i ==> names_of(state.selected_packages@).contains(#[trigger] package_names@[k]@),
                forall|k: int| 0 <= k < state.selected_packages@.len() ==> views(package_names@).contains(
                    #[trigger] state.selected_packages@[k].name@,
                ),
            decreases package_names.len() - i,
        {
            let ghost g0 = graph;
            let ghost st0 = state;
            match self.add_root_package(&mut graph, &mut state, package_names[i].as_str(), constraints) {
                Ok(()) => {},
                Err(e) => {
                    return Err(e);
                },
            }
            proof {
                let nm = package_names@[i as int]@;
                let nd = choose|nd: GraphNode|
                    nd.package@ == nm && nd.version@ == "1.0.0"@ && nd.depth == 0 && nd.is_root && graph.nodes@ == with_node(
                        g0.nodes@,
                        nd,
                    );
                let p = choose|p: ResolvedPackage|
                    offered(p, nm) && state.selected_packages@ == with_package(st0.selected_packages@, p);
                lemma_with_node(g0.nodes@, nd);
                lemma_with_package(st0.selected_packages@, p);
                assert(views(package_names@)[i as int] == nm);
                assert forall|k: int| 0 <= k < graph.nodes@.len() implies {
                    let n = #[trigger] graph.nodes@[k];
                    &&& n.version@ == "1.0.0"@
                    &&& n.depth == 0
                    &&& n.is_root
                } by {
                    match first_index(node_names(g0.nodes@), nm) {
                        Some(j) => {
                            if k != j {
                                assert(graph.nodes@[k] == g0.nodes@[k]);
                            }
                        },
                        None => {
                            if k < g0.nodes@.len() {
                                assert(graph.nodes@[k] == g0.nodes@[k]);
                            }
                        },
                    }
                }
                assert forall|k: int| 0 <= k < i + 1 implies names_of(state.selected_packages@).contains(
                    #[trigger] package_names@[k]@,
                ) by {
                    if k < i {
                        let w = choose|w: int| 0 <= w < names_of(st0.selected_packages@).len() && names_of(st0.selected_packages@)[w]
                            == package_names@[k]@;
                        if !names_of(st0.selected_packages@).contains(nm) {
                            assert(names_of(state.selected_packages@)[w] == package_names@[k]@);
                        }
                    } else {
                        if !names_of(st0.selected_packages@).contains(nm) {
                            assert(names_of(state.selected_packages@)[names_of(st0.selected_packages@).len() as int] == nm);
                        }
                    }
                }
                assert forall|k: int| 0 <= k < state.selected_packages@.len() implies views(package_names@).contains(
                    #[trigger] state.selected_packages@[k].name@,
                ) by {
                    assert(names_of(state.selected_packages@)[k] == state.selected_packages@[k].name@);
                    if names_of(st0.selected_packages@).contains(nm) {
                        assert(names_of(st0.selected_packages@)[k] == st0.selected_packages@[k].name@);
                    } else if k < st0.selected_packages@.len() {
                        assert(names_of(st0.selected_packages@)[k] == st0.selected_packages@[k].name@);
                    }
                }
            }
            i = i + 1;
        }
        proof {
            assert forall|k: int| 0 <= k < graph.nodes@.len() implies names_of(state.selected_packages@).contains(
                #[trigger] graph.nodes@[k].package@,
            ) by {
                assert(node_names(graph.nodes@)[k] == graph.nodes@[k].package@);
            }
        }
        let resolved = match self.resolve_with_backtracking(&mut graph, &mut state) {
            Ok(v) => v,
            Err(e) => {
                return Err(e);
            },
        };
        let mut node_list: Vec<String> = Vec::new();
        let mut k: usize = 0;
        while k < graph.nodes.len()
            invariant
                k <= graph.nodes@.len(),
            decreases graph.nodes.len() - k,
        {
            node_list.push(graph.nodes[k].package.clone());
            k = k + 1;
        }
        let cycles = detect_cycles(&node_list, &graph.edges);
        if cycles.len() > 0 {
            assert(is_name_cycle(graph.edges@, views(cycles@[0]@)));
            return Err(install_failure("multiple", "unknown", concat2("Circular dependencies detected: ", cycles_text(&cycles).as_str())));
        }
        let ghost sel = state.selected_packages@;
        assert(package_views(resolved@) == package_views(sel));
        assert(package_views(resolved@).len() == resolved@.len());
        assert(package_views(sel).len() == sel.len());
        assert(resolved@.len() == sel.len());
        assert forall|j: int| 0 <= j < resolved@.len() implies #[trigger] package_view(resolved@[j]) == package_view(sel[j]) by {
            assert(package_views(resolved@)[j] == package_view(resolved@[j]));
            assert(package_views(sel)[j] == package_view(sel[j]));
        }
        assert(names_of(resolved@) =~= names_of(sel)) by {
            assert forall|j: int| 0 <= j < resolved@.len() implies names_of(resolved@)[j] == names_of(sel)[j] by {
                assert(package_view(resolved@[j]) == package_view(sel[j]));
            }
        }
        assert forall|j: int| 0 <= j < resolved@.len() implies (#[trigger] resolved@[j]).dependencies@.len() == 0 by {
            assert(package_view(resolved@[j]) == package_view(sel[j]));
            assert(offered(sel[j], sel[j].name@));
            assert(package_view(sel[j]).3.len() == 0);
        }
        proof {
            lemma_no_explicit(resolved@, resolved@);
            lemma_none_twice(firsts(names_of(resolved@)), names_of(resolved@));
        }
        let conflicts = detect_conflicts(&resolved);
        assert(report_views(conflicts@).len() == 0);
        let ordered = topological_sort(&resolved, &graph.edges);
        proof {
            assert forall|j: int| 0 <= j < ordered@.len() implies {
                let p = #[trigger] ordered@[j];
                &&& p.version@ == "1.0.0"@
                &&& p.box_type@ == "apt"@
                &&& p.dependencies@.len() == 0
                &&& p.source_url is None
                &&& p.install_order == j
                &&& p.size == Some(1048576u64)
                &&& !p.is_virtual
                &&& p.replaces@.len() == 0
                &&& views(package_names@).contains(p.name@)
            } by {
                let kk = choose|kk: int| #[trigger] first_of_name(resolved@, kk, ordered@[j].name@) && ordered@[j].version
                    == resolved@[kk].version && same_package(ordered@[j], resolved@[kk]);
                assert(package_view(resolved@[kk]) == package_view(sel[kk]));
                assert(offered(sel[kk], sel[kk].name@));
                assert(package_view(ordered@[j]).3.len() == package_view(resolved@[kk]).3.len());
                assert(package_view(ordered@[j]).8.len() == package_view(resolved@[kk]).8.len());
            }
            lemma_size_sum_all(ordered@);
            assert forall|t: int| 0 <= t < package_names@.len() implies names_of(ordered@).contains(#[trigger] package_names@[t]@) by {
                let w = choose|w: int| 0 <= w < names_of(sel).len() && names_of(sel)[w] == package_names@[t]@;
                assert(names_of(resolved@)[w] == package_names@[t]@);
                assert(resolved@[w].name@ == package_names@[t]@);
            }
            assert(ordered@.len() <= package_names@.len()) by {
                assert(distinct_texts(names_of(ordered@)));
                assert(forall|j: int| 0 <= j < ordered@.len() ==> views(package_names@).contains(#[trigger] names_of(ordered@)[j]));
                names_of(ordered@).unique_seq_to_set();
                assert(names_of(ordered@).to_set().subset_of(views(package_names@).to_set())) by {
                    assert forall|x: Seq<char>| names_of(ordered@).to_set().contains(x) implies views(package_names@).to_set().contains(x) by {
                        let j = choose|j: int| 0 <= j < names_of(ordered@).len() && names_of(ordered@)[j] == x;
                        assert(views(package_names@).contains(ordered@[j].name@));
                    }
                }
                views(package_names@).lemma_cardinality_of_set();
                vstd::set_lib::lemma_len_subset(names_of(ordered@).to_set(), views(package_names@).to_set());
            }
            assert(size_sum(ordered@) <= u64::MAX) by (nonlinear_arith)
                requires
                    size_sum(ordered@) == ordered@.len() * 1048576,
                    ordered@.len() <= package_names@.len(),
                    package_names@.len() * 1048576 <= u64::MAX,
            ;
        }
        let total = total_size(&ordered);
        Ok(
            ResolutionPlan {
                packages: ordered,
                conflicts,
                warnings: state.warnings,
                total_size: Some(total),
                dependency_graph: graph,
                resolution_strategy: self.strategy,
            },
        )
    }
}

} // verus!
