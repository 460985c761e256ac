//! Dependency graphs over numbered nodes: install order by Kahn's algorithm
//! and detection of cycles.
use vstd::prelude::*;

verus! {

/// The number of edges among the first `k` that end at `v` and that `res`
/// does not count as resolved.
pub open spec fn unresolved(e: Seq<(usize, usize)>, k: int, v: usize, res: spec_fn(int) -> bool) -> nat
    decreases k,
{
    if k <= 0 {
        0
    } else {
        unresolved(e, k - 1, v, res) + if e[k - 1].1 == v && !res(k - 1) {
            1nat
        } else {
            0nat
        }
    }
}

/// The count depends only on what `res` says of the first `k` edges.
pub proof fn lemma_unresolved_ext(e: Seq<(usize, usize)>, k: int, v: usize, r1: spec_fn(int) -> bool, r2: spec_fn(int) -> bool)
    requires
        forall|j: int| 0 <= j < k ==> #[trigger] r1(j) == r2(j),
    ensures
        unresolved(e, k, v, r1) == unresolved(e, k, v, r2),
    decreases k,
{
    if k > 0 {
        lemma_unresolved_ext(e, k - 1, v, r1, r2);
    }
}

/// Resolving one more edge lowers the count of its end by one and leaves
/// the others alone.
pub proof fn lemma_unresolved_flip(
    e: Seq<(usize, usize)>,
    k: int,
    v: usize,
    r1: spec_fn(int) -> bool,
    r2: spec_fn(int) -> bool,
    j0: int,
)
    requires
        0 <= j0 < k <= e.len(),
        !r1(j0),
        r2(j0),
        forall|j: int| 0 <= j < k && j != j0 ==> #[trigger] r1(j) == r2(j),
    ensures
        unresolved(e, k, v, r1) == unresolved(e, k, v, r2) + if e[j0].1 == v { 1nat } else { 0nat },
    decreases k,
{
    if k - 1 == j0 {
        lemma_unresolved_ext(e, k - 1, v, r1, r2);
    } else {
        lemma_unresolved_flip(e, k - 1, v, r1, r2, j0);
    }
}

/// A count of zero means every edge into `v` is resolved.
pub proof fn lemma_unresolved_zero(e: Seq<(usize, usize)>, k: int, v: usize, res: spec_fn(int) -> bool)
    requires
        unresolved(e, k, v, res) == 0,
        k <= e.len(),
    ensures
        forall|j: int| 0 <= j < k && #[trigger] e[j].1 == v ==> res(j),
    decreases k,
{
    if k > 0 {
        lemma_unresolved_zero(e, k - 1, v, res);
    }
}

/// A count above zero means some edge into `v` is unresolved.
pub proof fn lemma_unresolved_positive(e: Seq<(usize, usize)>, k: int, v: usize, res: spec_fn(int) -> bool)
    requires
        unresolved(e, k, v, res) > 0,
        k <= e.len(),
    ensures
        exists|j: int| 0 <= j < k && #[trigger] e[j].1 == v && !res(j),
    decreases k,
{
    if k > 0 {
        if e[k - 1].1 == v && !res(k - 1) {
        } else {
            lemma_unresolved_positive(e, k - 1, v, res);
        }
    }
}

/// There are at most `k` such edges.
pub proof fn lemma_unresolved_bound(e: Seq<(usize, usize)>, k: int, v: usize, res: spec_fn(int) -> bool)
    requires
        0 <= k,
    ensures
        unresolved(e, k, v, res) <= k,
    decreases k,
{
    if k > 0 {
        lemma_unresolved_bound(e, k - 1, v, res);
    }
}

/// A list of distinct nodes below `n` holds at most `n` nodes.
pub proof fn lemma_distinct_bound(s: Seq<usize>, n: usize)
    requires
        distinct(s),
        forall|i: int| 0 <= i < s.len() ==> s[i] < n,
    ensures
        s.len() <= n,
{
    let t = s.map_values(|x: usize| x as int);
    assert(t.no_duplicates()) by {
        assert forall|a: int, b: int| 0 <= a < t.len() && 0 <= b < t.len() && a != b implies t[a] != t[b] by {
            if a < b {
                assert(s[a] != s[b]);
            } else {
                assert(s[b] != s[a]);
            }
        }
    }
    t.unique_seq_to_set();
    vstd::set_lib::lemma_int_range(0, n as int);
    assert(t.to_set().subset_of(vstd::set_lib::set_int_range(0, n as int))) by {
        assert forall|x: int| t.to_set().contains(x) implies vstd::set_lib::set_int_range(0, n as int).contains(x) by {
            assert(t.contains(x));
            let k = choose|k: int| 0 <= k < t.len() && t[k] == x;
            assert(s[k] < n);
        }
    }
    vstd::set_lib::lemma_len_subset(t.to_set(), vstd::set_lib::set_int_range(0, n as int));
}

/// No edge is resolved yet.
pub open spec fn nothing_resolved() -> spec_fn(int) -> bool {
    |j: int| false
}

/// An edge is resolved once its source is among `done`.
pub open spec fn resolved_by(e: Seq<(usize, usize)>, done: Seq<usize>) -> spec_fn(int) -> bool {
    |j: int| done.contains(e[j].0)
}

/// No node occurs twice.
pub open spec fn distinct(s: Seq<usize>) -> bool {
    forall|a: int, b: int| 0 <= a < b < s.len() ==> s[a] != s[b]
}

/// An order of nodes `0..n` in which every node comes after the sources of
/// all the edges into it (edges from nodes outside `0..n` block their end
/// for good).
pub open spec fn respects_edges(order: Seq<usize>, e: Seq<(usize, usize)>) -> bool {
    forall|p: int, j: int|
        #![trigger order[p], e[j]]
        0 <= p < order.len() && 0 <= j < e.len() && e[j].1 == order[p] ==> order.take(p).contains(e[j].0)
}

/// Every node of `0..n` left out of `order` has an edge into it from a node
/// that is left out too (or from outside `0..n`).
pub open spec fn blocked_rest(order: Seq<usize>, e: Seq<(usize, usize)>, n: usize) -> bool {
    forall|v: usize|
        v < n && !order.contains(v) ==> exists|j: int|
            0 <= j < e.len() && #[trigger] e[j].1 == v && !order.contains(e[j].0)
}

/// Kahn's algorithm on nodes `0..n` and the edges `e` (source, end): the
/// nodes in an order where each comes after the sources of its incoming
/// edges, holding every node that is not blocked, directly or through other
/// nodes, by a cycle or by an edge from outside `0..n`. Nodes come in the
/// order of a first-in first-out queue started with the free nodes in
/// increasing order.
pub fn kahn_order(n: usize, e: &Vec<(usize, usize)>) -> (r: Vec<usize>)
    ensures
        distinct(r@),
        forall|i: int| 0 <= i < r@.len() ==> r@[i] < n,
        respects_edges(r@, e@),
        blocked_rest(r@, e@, n),
{
    let mut indeg: Vec<usize> = Vec::new();
    let mut v: usize = 0;
    while v < n
        invariant
            v <= n,
            indeg@.len() == v,
            forall|w: int| 0 <= w < v ==> indeg@[w] == 0,
        decreases n - v,
    {
        indeg.push(0);
        v = v + 1;
    }
    let mut j: usize = 0;
    while j < e.len()
        invariant
            j <= e@.len(),
            indeg@.len() == n,
            forall|w: usize| w < n ==> #[trigger] indeg@[w as int] == unresolved(e@, j as int, w, nothing_resolved()),
        decreases e.len() - j,
    {
        let to = e[j].1;
        if to < n {
            proof {
                lemma_unresolved_bound(e@, j as int, to, nothing_resolved());
            }
            let d = indeg[to];
            indeg.set(to, d + 1);
        }
        assert forall|w: usize| w < n implies #[trigger] indeg@[w as int] == unresolved(e@, j + 1, w, nothing_resolved()) by {
            assert(unresolved(e@, j + 1, w, nothing_resolved()) == unresolved(e@, j as int, w, nothing_resolved())
                + if e@[j as int].1 == w { 1nat } else { 0nat });
        }
        j = j + 1;
    }
    let mut q: Vec<usize> = Vec::new();
    let mut w: usize = 0;
    proof {
            }
    while w < n
        invariant
            w <= n,
            indeg@.len() == n,
            forall|x: usize| x < n ==> #[trigger] indeg@[x as int] == unresolved(e@, e@.len() as int, x, nothing_resolved()),
            distinct(q@),
            forall|i: int| 0 <= i < q@.len() ==> q@[i] < w,
            forall|x: usize| x < w ==> (q@.contains(x) <==> #[trigger] indeg@[x as int] == 0),
        decreases n - w,
    {
        let ghost q0 = q@;
        if indeg[w] == 0 {
            q.push(w);
            assert(q@ == q0.push(w));
        }
        assert forall|x: usize| x <= w implies (q@.contains(x) <==> #[trigger] indeg@[x as int] == 0) by {
            if x < w {
                if q@.contains(x) && !q0.contains(x) {
                    let k = choose|k: int| 0 <= k < q@.len() && q@[k] == x;
                    assert(k == q0.len());
                }
                if q0.contains(x) {
                    let k = choose|k: int| 0 <= k < q0.len() && q0[k] == x;
                    assert(q@[k] == x);
                }
            } else {
                if indeg@[w as int] == 0 {
                    assert(q@[q0.len() as int] == w);
                } else {
                    if q@.contains(w) {
                        let k = choose|k: int| 0 <= k < q@.len() && q@[k] == w;
                        assert(q0[k] < w);
                    }
                }
            }
        }
        assert(distinct(q@)) by {
            assert forall|a: int, b: int| 0 <= a < b < q@.len() implies q@[a] != q@[b] by {
                if b == q0.len() {
                    assert(q0[a] < w);
                }
            }
        }
        w = w + 1;
    }
    proof {
        assert forall|x: usize| x < n implies #[trigger] indeg@[x as int] == unresolved(e@, e@.len() as int, x, resolved_by(e@, q@.take(0))) by {
            lemma_unresolved_ext(e@, e@.len() as int, x, nothing_resolved(), resolved_by(e@, q@.take(0)));
        }
        assert forall|p: int, jj: int|
            #![trigger q@[p], e@[jj]]
            0 <= p < q@.len() && 0 <= jj < e@.len() && e@[jj].1 == q@[p] implies q@.take(p).contains(e@[jj].0) by {
            let x = q@[p];
            assert(q@.contains(x));
            assert(indeg@[x as int] == 0);
            lemma_unresolved_zero(e@, e@.len() as int, x, nothing_resolved());
            assert(e@[jj].1 == x);
        }
    }
    proof {
        lemma_distinct_bound(q@, n);
    }
    let mut h: usize = 0;
    while h < q.len()
        invariant
            h <= q@.len(),
            indeg@.len() == n,
            distinct(q@),
            forall|i: int| 0 <= i < q@.len() ==> q@[i] < n,
            forall|x: usize| x < n ==> #[trigger] indeg@[x as int] == unresolved(e@, e@.len() as int, x, resolved_by(e@, q@.take(h as int))),
            forall|x: usize| x < n ==> (q@.contains(x) <==> #[trigger] indeg@[x as int] == 0),
            respects_edges(q@, e@),
            q@.len() <= n,
        decreases n - h,
    {
        let u = q[h];
        let ghost before = q@.take(h as int);
        assert(!before.contains(u)) by {
            if before.contains(u) {
                let a = choose|a: int| 0 <= a < before.len() && before[a] == u;
                assert(q@[a] == q@[h as int]);
            }
        }
        let mut i: usize = 0;
        proof {
            let r0: spec_fn(int) -> bool = |jj: int| before.contains(e@[jj].0) || (e@[jj].0 == u && jj < 0);
            assert forall|x: usize| x < n implies #[trigger] indeg@[x as int] == unresolved(e@, e@.len() as int, x, r0) by {
                lemma_unresolved_ext(e@, e@.len() as int, x, resolved_by(e@, before), r0);
            }
        }
        while i < e.len()
            invariant
                h < q@.len(),
                i <= e@.len(),
                u == q@[h as int],
                before == q@.take(h as int),
                !before.contains(u),
                indeg@.len() == n,
                distinct(q@),
                forall|k: int| 0 <= k < q@.len() ==> q@[k] < n,
                forall|x: usize| x < n ==> #[trigger] indeg@[x as int] == unresolved(
                    e@,
                    e@.len() as int,
                    x,
                    |jj: int| before.contains(e@[jj].0) || (e@[jj].0 == u && jj < i),
                ),
                forall|x: usize| x < n ==> (q@.contains(x) <==> #[trigger] indeg@[x as int] == 0),
                respects_edges(q@, e@),
            decreases e.len() - i,
        {
            let ghost r1: spec_fn(int) -> bool = |jj: int| before.contains(e@[jj].0) || (e@[jj].0 == u && jj < i);
            let ghost r2: spec_fn(int) -> bool = |jj: int| before.contains(e@[jj].0) || (e@[jj].0 == u && jj < i + 1);
            let ghost q_start = q@;
            let ghost ind_start = indeg@;
            let (from, to) = e[i];
            if from == u {
                proof {
                    assert forall|x: usize| x < n implies #[trigger] unresolved(e@, e@.len() as int, x, r1)
                        == unresolved(e@, e@.len() as int, x, r2) + if to == x { 1nat } else { 0nat } by {
                        lemma_unresolved_flip(e@, e@.len() as int, x, r1, r2, i as int);
                    }
                }
                if to < n {
                    let d = indeg[to];
                    assert(d >= 1) by {
                        assert(indeg@[to as int] == unresolved(e@, e@.len() as int, to, r1));
                    }
                    let ghost qpre = q@;
                    assert(!qpre.contains(to));
                    indeg.set(to, d - 1);
                    if d - 1 == 0 {
                        let ghost qold = q@;
                        assert(!qold.contains(to));
                        q.push(to);
                        proof {
                            assert(distinct(q@)) by {
                                assert forall|a: int, b: int| 0 <= a < b < q@.len() implies q@[a] != q@[b] by {
                                    if b == qold.len() as int {
                                        assert(qold[a] == q@[a]);
                                    }
                                }
                            }
                            lemma_unresolved_zero(e@, e@.len() as int, to, r2);
                            assert forall|p: int, jj: int|
                                #![trigger q@[p], e@[jj]]
                                0 <= p < q@.len() && 0 <= jj < e@.len() && e@[jj].1 == q@[p] implies q@.take(p).contains(e@[jj].0) by {
                                if p < qold.len() {
                                    assert(qold[p] == q@[p]);
                                    assert(qold.take(p) =~= q@.take(p));
                                } else {
                                    assert(r2(jj));
                                    let src = e@[jj].0;
                                    if before.contains(src) {
                                        let a = choose|a: int| 0 <= a < before.len() && before[a] == src;
                                        assert(q@.take(p)[a] == src);
                                    } else {
                                        assert(src == u);
                                        assert(q@.take(p)[h as int] == u);
                                    }
                                }
                            }
                        }
                    }
                }
            } else {
                proof {
                    assert forall|x: usize| x < n implies #[trigger] unresolved(e@, e@.len() as int, x, r1)
                        == unresolved(e@, e@.len() as int, x, r2) by {
                        lemma_unresolved_ext(e@, e@.len() as int, x, r1, r2);
                    }
                }
            }
            proof {
                assert forall|x: usize| x < n implies (q@.contains(x) <==> #[trigger] indeg@[x as int] == 0) by {
                    if q@.len() > q_start.len() {
                        assert(q@ == q_start.push(to));
                        if x == to {
                            assert(q@[q_start.len() as int] == to);
                        } else {
                            assert(indeg@[x as int] == ind_start[x as int]);
                            if q@.contains(x) {
                                let k = choose|k: int| 0 <= k < q@.len() && q@[k] == x;
                                assert(q_start[k] == x);
                            }
                            if q_start.contains(x) {
                                let k = choose|k: int| 0 <= k < q_start.len() && q_start[k] == x;
                                assert(q@[k] == x);
                            }
                        }
                    } else {
                        assert(q@ == q_start);
                        if x != to || !(from == u && to < n) {
                            assert(indeg@[x as int] == ind_start[x as int]);
                        }
                    }
                }
            }
            i = i + 1;
        }
        proof {
            let after = q@.take(h + 1);
            let rf: spec_fn(int) -> bool = |jj: int| before.contains(e@[jj].0) || (e@[jj].0 == u && jj < e@.len());
            assert forall|jj: int| 0 <= jj < e@.len() implies #[trigger] rf(jj) == resolved_by(e@, after)(jj) by {
                let src = e@[jj].0;
                if before.contains(src) {
                    let a = choose|a: int| 0 <= a < before.len() && before[a] == src;
                    assert(after[a] == src);
                }
                if src == u {
                    assert(after[h as int] == u);
                }
                if after.contains(src) {
                    let a = choose|a: int| 0 <= a < after.len() && after[a] == src;
                    if a < h {
                        assert(before[a] == src);
                    }
                }
            }
            assert forall|x: usize| x < n implies #[trigger] indeg@[x as int] == unresolved(e@, e@.len() as int, x, resolved_by(e@, after)) by {
                lemma_unresolved_ext(e@, e@.len() as int, x, rf, resolved_by(e@, after));
            }
            lemma_distinct_bound(q@, n);
        }
        h = h + 1;
    }
    proof {
        assert(q@.take(q@.len() as int) =~= q@);
        assert forall|x: usize| x < n && !q@.contains(x) implies exists|jj: int|
            0 <= jj < e@.len() && #[trigger] e@[jj].1 == x && !q@.contains(e@[jj].0) by {
            assert(indeg@[x as int] != 0);
            lemma_unresolved_positive(e@, e@.len() as int, x, resolved_by(e@, q@));
        }
    }
    q
}

/// Some edge goes from `a` to `b`.
pub open spec fn has_edge(e: Seq<(usize, usize)>, a: usize, b: usize) -> bool {
    exists|j: int| 0 <= j < e.len() && #[trigger] e[j] == (a, b)
}

/// Each node of `p` has an edge to the next.
pub open spec fn is_chain(e: Seq<(usize, usize)>, p: Seq<usize>) -> bool {
    forall|i: int| 0 <= i < p.len() - 1 ==> has_edge(e, #[trigger] p[i], p[i + 1])
}

/// `c` is a cycle: a chain whose last node has an edge back to its first.
pub open spec fn is_cycle(e: Seq<(usize, usize)>, c: Seq<usize>) -> bool {
    c.len() > 0 && is_chain(e, c) && has_edge(e, c.last(), c[0])
}

/// The number of nodes not yet visited.
pub open spec fn unvisited(v: Seq<bool>) -> nat
    decreases v.len(),
{
    if v.len() == 0 {
        0
    } else {
        unvisited(v.drop_last()) + if v.last() { 0nat } else { 1nat }
    }
}

/// Visiting more nodes leaves fewer unvisited, strictly fewer where one more
/// was visited.
pub proof fn lemma_unvisited_mono(a: Seq<bool>, b: Seq<bool>)
    requires
        a.len() == b.len(),
        forall|i: int| 0 <= i < a.len() && #[trigger] a[i] ==> b[i],
    ensures
        unvisited(b) <= unvisited(a),
        (exists|i: int| 0 <= i < a.len() && !a[i] && #[trigger] b[i]) ==> unvisited(b) < unvisited(a),
    decreases a.len(),
{
    if a.len() > 0 {
        lemma_unvisited_mono(a.drop_last(), b.drop_last());
        if exists|i: int| 0 <= i < a.len() && !a[i] && #[trigger] b[i] {
            let i = choose|i: int| 0 <= i < a.len() && !a[i] && #[trigger] b[i];
            if i < a.len() - 1 {
                assert(!a.drop_last()[i] && b.drop_last()[i]);
            }
        }
    }
}

/// Finishing ranks that witness the absence of cycles so far: `fin` gives
/// each finished node (visited and off the path) a rank below `t`, and
/// every edge out of a finished node goes to a finished node of lower rank.
pub open spec fn ranked(e: Seq<(usize, usize)>, vis: Seq<bool>, onp: Seq<bool>, fin: Seq<int>, t: int) -> bool {
    &&& fin.len() == vis.len()
    &&& onp.len() == vis.len()
    &&& forall|x: int| 0 <= x < vis.len() && #[trigger] vis[x] && !onp[x] ==> fin[x] < t
    &&& forall|j: int|
        0 <= j < e.len() && vis[(#[trigger] e[j]).0 as int] && !onp[e[j].0 as int] ==> vis[e[j].1 as int] && !onp[e[j].1 as int]
            && fin[e[j].1 as int] < fin[e[j].0 as int]
}

/// An edge out of a finished node leads to a finished node of lower rank.
proof fn lemma_edge_step(e: Seq<(usize, usize)>, vis: Seq<bool>, onp: Seq<bool>, fin: Seq<int>, t: int, a: usize, b: usize)
    requires
        ranked(e, vis, onp, fin, t),
        has_edge(e, a, b),
        (a as int) < vis.len(),
        vis[a as int],
        !onp[a as int],
    ensures
        vis[b as int],
        !onp[b as int],
        fin[b as int] < fin[a as int],
{
    let j = choose|j: int| 0 <= j < e.len() && #[trigger] e[j] == (a, b);
    assert(e[j].0 == a);
}

/// Along a chain from a finished node, every node is finished, with ranks
/// falling by at least one a step.
proof fn lemma_chain_ranked(
    e: Seq<(usize, usize)>,
    vis: Seq<bool>,
    onp: Seq<bool>,
    fin: Seq<int>,
    t: int,
    c: Seq<usize>,
    k: int,
    i: int,
)
    requires
        ranked(e, vis, onp, fin, t),
        forall|j: int| 0 <= j < e.len() ==> (#[trigger] e[j]).0 < vis.len() && e[j].1 < vis.len(),
        is_chain(e, c),
        0 <= k <= i < c.len(),
        (c[k] as int) < vis.len(),
        vis[c[k] as int],
        !onp[c[k] as int],
    ensures
        (c[i] as int) < vis.len(),
        vis[c[i] as int],
        !onp[c[i] as int],
        fin[c[i] as int] <= fin[c[k] as int] - (i - k),
    decreases i - k,
{
    if i > k {
        lemma_chain_ranked(e, vis, onp, fin, t, c, k, i - 1);
        assert(has_edge(e, c[i - 1], c[i - 1 + 1]));
        let j = choose|j: int| 0 <= j < e.len() && #[trigger] e[j] == (c[i - 1], c[i]);
        assert(e[j].1 == c[i]);
        lemma_edge_step(e, vis, onp, fin, t, c[i - 1], c[i]);
    }
}

/// Where ranks witness the absence of cycles, no cycle can be reached
/// from a finished node.
proof fn lemma_no_reachable_cycle(
    e: Seq<(usize, usize)>,
    vis: Seq<bool>,
    onp: Seq<bool>,
    fin: Seq<int>,
    t: int,
    p: Seq<usize>,
    c: Seq<usize>,
)
    requires
        ranked(e, vis, onp, fin, t),
        forall|j: int| 0 <= j < e.len() ==> (#[trigger] e[j]).0 < vis.len() && e[j].1 < vis.len(),
        is_chain(e, p),
        p.len() > 0,
        (p[0] as int) < vis.len(),
        vis[p[0] as int],
        !onp[p[0] as int],
        is_cycle(e, c),
    ensures
        !c.contains(p.last()),
{
    if c.contains(p.last()) {
        lemma_chain_ranked(e, vis, onp, fin, t, p, 0, p.len() - 1);
        let k = choose|k: int| 0 <= k < c.len() && c[k] == p.last();
        lemma_chain_ranked(e, vis, onp, fin, t, c, k, c.len() - 1);
        lemma_edge_step(e, vis, onp, fin, t, c.last(), c[0]);
        lemma_chain_ranked(e, vis, onp, fin, t, c, 0, c.len() - 1);
    }
}

/// All cycles listed are cycles of `e`.
pub open spec fn all_cycles(e: Seq<(usize, usize)>, cs: Seq<Vec<usize>>) -> bool {
    forall|k: int| 0 <= k < cs.len() ==> is_cycle(e, #[trigger] cs[k]@)
}

/// The position of `x` in `p`, which holds it.
fn position_of(p: &Vec<usize>, x: usize) -> (r: usize)
    requires
        p@.contains(x),
    ensures
        r < p@.len(),
        p@[r as int] == x,
{
    let mut i: usize = 0;
    while i < p.len()
        invariant
            i <= p@.len(),
            p@.contains(x),
            forall|k: int| 0 <= k < i ==> p@[k] != x,
        decreases p.len() - i,
    {
        if p[i] == x {
            return i;
        }
        i = i + 1;
    }
    proof {
        let k = choose|k: int| 0 <= k < p@.len() && p@[k] == x;
        assert(p@[k] != x);
    }
    0
}

/// The nodes `p[from..]`.
fn tail_of(p: &Vec<usize>, from: usize) -> (r: Vec<usize>)
    requires
        from <= p@.len(),
    ensures
        r@ == p@.skip(from as int),
{
    let mut r: Vec<usize> = Vec::new();
    let mut i: usize = from;
    while i < p.len()
        invariant
            from <= i <= p@.len(),
            r@ == p@.subrange(from as int, i as int),
        decreases p.len() - i,
    {
        r.push(p[i]);
        assert(p@.subrange(from as int, i + 1) =~= p@.subrange(from as int, i as int).push(p@[i as int]));
        i = i + 1;
    }
    assert(p@.skip(from as int) =~= p@.subrange(from as int, p@.len() as int));
    r
}

/// Depth-first search from `node` along the edges `e`, recording as a cycle
/// the part of the current path that an edge leads back into.
fn dfs_cycles(
    e: &Vec<(usize, usize)>,
    m: usize,
    node: usize,
    visited: &mut Vec<bool>,
    on_path: &mut Vec<bool>,
    path: &mut Vec<usize>,
    cycles: &mut Vec<Vec<usize>>,
    Ghost(fin): Ghost<Seq<int>>,
    Ghost(t): Ghost<int>,
) -> (out: Ghost<(Seq<int>, int)>)
    requires
        node < m,
        old(visited)@.len() == m,
        old(on_path)@.len() == m,
        !old(visited)@[node as int],
        forall|j: int| 0 <= j < e@.len() ==> (#[trigger] e@[j]).0 < m && e@[j].1 < m,
        is_chain(e@, old(path)@),
        old(path)@.len() > 0 ==> has_edge(e@, old(path)@.last(), node),
        forall|i: int| 0 <= i < old(path)@.len() ==> #[trigger] old(path)@[i] < m && old(visited)@[old(path)@[i] as int],
        forall|x: usize| x < m ==> (#[trigger] old(on_path)@[x as int] <==> old(path)@.contains(x)),
        all_cycles(e@, old(cycles)@),
        old(cycles)@.len() == 0 ==> ranked(e@, old(visited)@, old(on_path)@, fin, t),
    ensures
        final(cycles)@.len() >= old(cycles)@.len(),
        final(cycles)@.len() == 0 ==> {
            &&& ranked(e@, final(visited)@, final(on_path)@, out@.0, out@.1)
            &&& out@.1 >= t
            &&& forall|x: int| 0 <= x < m && #[trigger] old(visited)@[x] && !old(on_path)@[x] ==> out@.0[x] == fin[x]
        },
        final(visited)@.len() == m,
        final(on_path)@ == old(on_path)@,
        final(path)@ == old(path)@,
        final(visited)@[node as int],
        forall|i: int| 0 <= i < m && #[trigger] old(visited)@[i] ==> final(visited)@[i],
        all_cycles(e@, final(cycles)@),
    decreases unvisited(old(visited)@),
{
    let ghost v0 = visited@;
    let ghost p0 = path@;
    let ghost o0 = on_path@;
    visited.set(node, true);
    on_path.set(node, true);
    path.push(node);
    proof {
        assert forall|i: int| 0 <= i < path@.len() - 1 implies has_edge(e@, #[trigger] path@[i], path@[i + 1]) by {
            if i < p0.len() - 1 {
                assert(path@[i] == p0[i] && path@[i + 1] == p0[i + 1]);
            } else {
                assert(path@[i] == p0.last());
            }
        }
        assert forall|x: usize| x < m implies (#[trigger] on_path@[x as int] <==> path@.contains(x)) by {
            if path@.contains(x) && x != node {
                let k = choose|k: int| 0 <= k < path@.len() && path@[k] == x;
                assert(p0[k] == x);
            }
            if p0.contains(x) {
                let k = choose|k: int| 0 <= k < p0.len() && p0[k] == x;
                assert(path@[k] == x);
            }
            if x == node {
                assert(path@[p0.len() as int] == node);
            }
        }
    }
    let ghost v1 = visited@;
    let ghost p1 = path@;
    let ghost o1 = on_path@;
    let ghost c0 = cycles@.len();
    let ghost mut fin_cur: Seq<int> = fin;
    let ghost mut t_cur: int = t;
    proof {
        assert(v1 =~= v0.update(node as int, true));
        assert(o1 =~= o0.update(node as int, true));
        assert forall|x: int| 0 <= x < m && #[trigger] o1[x] implies v1[x] by {
            assert(0 <= x < m);
            let xu = x as usize;
            assert(o1[xu as int] <==> p1.contains(xu));
            let k = choose|k: int| 0 <= k < p1.len() && p1[k] == xu;
        }
        if c0 == 0 {
            assert forall|j: int|
                0 <= j < e@.len() && v1[(#[trigger] e@[j]).0 as int] && !o1[e@[j].0 as int] implies v1[e@[j].1 as int]
                    && !o1[e@[j].1 as int] && fin_cur[e@[j].1 as int] < fin_cur[e@[j].0 as int] by {
                assert(e@[j].0 != node);
                assert(v0[e@[j].0 as int] && !o0[e@[j].0 as int]);
                assert(e@[j].1 != node);
            }
            assert forall|x: int| 0 <= x < v1.len() && #[trigger] v1[x] && !o1[x] implies fin_cur[x] < t_cur by {
                assert(x != node);
            }
        }
    }
    let mut i: usize = 0;
    while i < e.len()
        invariant
            node < m,
            i <= e@.len(),
            forall|j: int| 0 <= j < e@.len() ==> (#[trigger] e@[j]).0 < m && e@[j].1 < m,
            visited@.len() == m,
            on_path@ == o1,
            o1.len() == m,
            path@ == p1,
            p1 == p0.push(node),
            v1.len() == m,
            v1[node as int],
            forall|k: int| 0 <= k < m && #[trigger] v1[k] ==> visited@[k],
            forall|k: int| 0 <= k < m && #[trigger] v0[k] ==> v1[k],
            !v0[node as int],
            v0.len() == m,
            v0 == old(visited)@,
            is_chain(e@, p1),
            forall|k: int| 0 <= k < p1.len() ==> #[trigger] p1[k] < m && v1[p1[k] as int],
            forall|x: usize| x < m ==> (#[trigger] o1[x as int] <==> p1.contains(x)),
            all_cycles(e@, cycles@),
            o1 == o0.update(node as int, true),
            o0.len() == m,
            o0 == old(on_path)@,
            o1[node as int],
            forall|x: int| 0 <= x < m && #[trigger] o1[x] ==> v1[x],
            c0 == old(cycles)@.len(),
            cycles@.len() >= c0,
            cycles@.len() == 0 ==> {
                &&& ranked(e@, visited@, o1, fin_cur, t_cur)
                &&& t_cur >= t
                &&& forall|x: int| 0 <= x < m && #[trigger] v0[x] && !o0[x] ==> fin_cur[x] == fin[x]
                &&& forall|j: int| 0 <= j < i && (#[trigger] e@[j]).0 == node ==> visited@[e@[j].1 as int] && !o1[e@[j].1 as int]
                    && fin_cur[e@[j].1 as int] < t_cur
            },
        decreases e.len() - i,
    {
        let (from, to) = e[i];
        assert(e@[i as int].1 < m);
        if from == node {
            assert(e@[i as int] == (node, to));
            if on_path[to] {
                let k = position_of(path, to);
                let c = tail_of(path, k);
                proof {
                    assert(is_cycle(e@, c@)) by {
                        assert(c@.len() > 0);
                        assert forall|a: int| 0 <= a < c@.len() - 1 implies has_edge(e@, #[trigger] c@[a], c@[a + 1]) by {
                            assert(c@[a] == p1[k + a] && c@[a + 1] == p1[k + a + 1]);
                        }
                        assert(c@.last() == node);
                        assert(c@[0] == to);
                    }
                }
                cycles.push(c);
                proof {
                    assert forall|kk: int| 0 <= kk < cycles@.len() implies is_cycle(e@, #[trigger] cycles@[kk]@) by {}
                }
            } else if !visited[to] {
                proof {
                    assert forall|a: int| 0 <= a < m && #[trigger] v0[a] implies visited@[a] by {}
                    lemma_unvisited_mono(v0, visited@);
                    assert(!v0[node as int] && visited@[node as int]);
                    assert(unvisited(visited@) < unvisited(v0));
                    assert(has_edge(e@, p1.last(), to));
                    assert forall|a: int| 0 <= a < p1.len() implies #[trigger] p1[a] < m && visited@[p1[a] as int] by {}
                }
                let ghost vb = visited@;
                let ghost fb = fin_cur;
                let ghost tb = t_cur;
                assert(v0 == old(visited)@);
                assert(unvisited(visited@) < unvisited(old(visited)@));
                assert(!o1[to as int]);
                let Ghost(res) = dfs_cycles(e, m, to, visited, on_path, path, cycles, Ghost(fin_cur), Ghost(t_cur));
                proof {
                    fin_cur = res.0;
                    t_cur = res.1;
                    assert forall|a: int| 0 <= a < m && #[trigger] v1[a] implies visited@[a] by {
                        assert(vb[a]);
                    }
                    if cycles@.len() == 0 {
                        assert forall|x: int| 0 <= x < m && #[trigger] v0[x] && !o0[x] implies fin_cur[x] == fin[x] by {
                            assert(x != node);
                            assert(vb[x] && !o1[x]);
                        }
                        assert forall|j: int| 0 <= j < i + 1 && (#[trigger] e@[j]).0 == node implies visited@[e@[j].1 as int]
                            && !o1[e@[j].1 as int] && fin_cur[e@[j].1 as int] < t_cur by {
                            if j < i {
                                assert(vb[e@[j].1 as int] && !o1[e@[j].1 as int]);
                                assert(fin_cur[e@[j].1 as int] == fb[e@[j].1 as int]);
                            } else {
                                assert(e@[j].1 == to);
                                assert(visited@[to as int]);
                            }
                        }
                    }
                }
            }
        }
        proof {
            if cycles@.len() == 0 {
                assert forall|j: int| 0 <= j < i + 1 && (#[trigger] e@[j]).0 == node implies visited@[e@[j].1 as int]
                    && !o1[e@[j].1 as int] && fin_cur[e@[j].1 as int] < t_cur by {
                    if j == i {
                        assert(e@[j].1 == to);
                        assert(visited@[to as int]);
                        assert(!o1[to as int]);
                    }
                }
            }
        }
        i = i + 1;
    }
    path.pop();
    on_path.set(node, false);
    proof {
        assert(path@ =~= p0);
        assert(!p0.contains(node)) by {
            if p0.contains(node) {
                let k = choose|k: int| 0 <= k < p0.len() && p0[k] == node;
                assert(v0[p0[k] as int]);
            }
        }
        assert(!o0[node as int]);
        assert(on_path@ =~= o0) by {
            assert forall|x: int| 0 <= x < m implies on_path@[x] == o0[x] by {
                if x != node as int {
                    assert(o1[x] == o0[x]);
                }
            }
        }
        assert forall|a: int| 0 <= a < m && #[trigger] v0[a] implies visited@[a] by {}
    }
    let ghost fin_new = fin_cur.update(node as int, t_cur);
    let ghost t_new = t_cur + 1;
    proof {
        if cycles@.len() == 0 {
            let vv = visited@;
            assert(o0 == on_path@);
            assert forall|x: int| 0 <= x < vv.len() && #[trigger] vv[x] && !o0[x] implies fin_new[x] < t_new by {
                if x != node {
                    assert(!o1[x]);
                }
            }
            assert forall|j: int|
                0 <= j < e@.len() && vv[(#[trigger] e@[j]).0 as int] && !o0[e@[j].0 as int] implies vv[e@[j].1 as int]
                    && !o0[e@[j].1 as int] && fin_new[e@[j].1 as int] < fin_new[e@[j].0 as int] by {
                if e@[j].0 == node {
                    assert(!o1[e@[j].1 as int]);
                    assert(e@[j].1 != node);
                } else {
                    assert(!o1[e@[j].0 as int]);
                    assert(vv[e@[j].1 as int] && !o1[e@[j].1 as int]);
                    assert(e@[j].1 != node);
                }
            }
            assert forall|x: int| 0 <= x < m && #[trigger] old(visited)@[x] && !old(on_path)@[x] implies fin_new[x] == fin[x] by {
                assert(x != node);
            }
        }
    }
    Ghost((fin_new, t_new))
}

/// The cycles found by depth-first searches started, in order, from each
/// of the nodes `0..n` not yet reached, over nodes `0..m` joined by the
/// edges `e`. Every list returned is a cycle of the graph: each node has an
/// edge to the next, and the last one an edge back to the first. None is
/// returned only where no cycle can be reached along the edges from any of
/// the nodes `0..n`.
pub fn find_cycles(n: usize, m: usize, e: &Vec<(usize, usize)>) -> (r: Vec<Vec<usize>>)
    requires
        n <= m,
        forall|j: int| 0 <= j < e@.len() ==> (#[trigger] e@[j]).0 < m && e@[j].1 < m,
    ensures
        forall|k: int| 0 <= k < r@.len() ==> is_cycle(e@, #[trigger] r@[k]@),
        r@.len() == 0 ==> forall|p: Seq<usize>, c: Seq<usize>|
            #![trigger is_chain(e@, p), is_cycle(e@, c)]
            p.len() > 0 && (p[0] as int) < n && is_chain(e@, p) && is_cycle(e@, c) ==> !c.contains(p.last()),
{
    let mut visited: Vec<bool> = Vec::new();
    let mut on_path: Vec<bool> = Vec::new();
    let mut k: usize = 0;
    while k < m
        invariant
            k <= m,
            visited@.len() == k,
            on_path@.len() == k,
            forall|x: int| 0 <= x < k ==> !on_path@[x],
            forall|x: int| 0 <= x < k ==> !visited@[x],
        decreases m - k,
    {
        visited.push(false);
        on_path.push(false);
        k = k + 1;
    }
    let mut path: Vec<usize> = Vec::new();
    let mut cycles: Vec<Vec<usize>> = Vec::new();
    let ghost mut fin: Seq<int> = Seq::new(m as nat, |i: int| 0int);
    let ghost mut t: int = 0;
    assert(ranked(e@, visited@, on_path@, fin, t));
    let mut s: usize = 0;
    while s < n
        invariant
            n <= m,
            s <= n,
            visited@.len() == m,
            on_path@.len() == m,
            forall|x: int| 0 <= x < m ==> !on_path@[x],
            path@.len() == 0,
            forall|j: int| 0 <= j < e@.len() ==> (#[trigger] e@[j]).0 < m && e@[j].1 < m,
            all_cycles(e@, cycles@),
            forall|x: int| 0 <= x < s ==> #[trigger] visited@[x],
            cycles@.len() == 0 ==> ranked(e@, visited@, on_path@, fin, t),
        decreases n - s,
    {
        if !visited[s] {
            assert forall|x: usize| x < m implies (#[trigger] on_path@[x as int] <==> path@.contains(x)) by {}
            let ghost vb = visited@;
            let Ghost(res) = dfs_cycles(&e, m, s, &mut visited, &mut on_path, &mut path, &mut cycles, Ghost(fin), Ghost(t));
            proof {
                fin = res.0;
                t = res.1;
                assert forall|x: int| 0 <= x < s + 1 implies #[trigger] visited@[x] by {
                    if x < s {
                        assert(vb[x]);
                    }
                }
            }
        }
        s = s + 1;
    }
    proof {
        if cycles@.len() == 0 {
            assert forall|p: Seq<usize>, c: Seq<usize>|
                #![trigger is_chain(e@, p), is_cycle(e@, c)]
                p.len() > 0 && (p[0] as int) < n && is_chain(e@, p) && is_cycle(e@, c) implies !c.contains(p.last()) by {
                assert(visited@[p[0] as int]);
                lemma_no_reachable_cycle(e@, visited@, on_path@, fin, t, p, c);
            }
        }
    }
    cycles
}

} // verus!
