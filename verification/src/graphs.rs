//! Workspace dependency graphs and the dependant collector.
//!
//! The two graphs are built once at workspace load and are mirror images
//! of each other: an edge in the depends-on graph from member A to
//! member B corresponds to an edge from B to A in the dependants graph.
//! Only edges between workspace members exist; dependencies on packages
//! outside the workspace are omitted entirely.

use vstd::prelude::*;

use crate::packages::Package;
use crate::text::bytes_eq;

verus! {

/// Two directed graphs over member indices, mirror images of each other.
pub struct WorkspaceGraphs {
    /// For each member, the members that declare a dependency on it.
    pub dependants: Vec<Vec<usize>>,
    /// For each member, the members it declares a dependency on.
    pub dependencies: Vec<Vec<usize>>,
}

/// The edge lists of a graph as sequences.
pub open spec fn graph_view(g: Seq<Vec<usize>>) -> Seq<Seq<usize>> {
    Seq::new(g.len(), |i: int| g[i]@)
}

/// `row` holds the value `b`.
pub open spec fn row_contains(row: Seq<usize>, b: int) -> bool {
    exists|k: int| 0 <= k < row.len() && row[k] == b
}

/// Every edge target is a node of the graph.
pub open spec fn graph_wf(g: Seq<Seq<usize>>) -> bool {
    forall|i: int, k: int|
        0 <= i < g.len() && 0 <= k < g[i].len() ==> (#[trigger] g[i][k]) < g.len()
}

/// There is an edge from `a` to `b`.
pub open spec fn has_edge(g: Seq<Seq<usize>>, a: int, b: int) -> bool {
    &&& 0 <= a < g.len()
    &&& row_contains(g[a], b)
}

/// `b` is reachable from `a` in exactly `k` steps.
pub open spec fn reach_k(g: Seq<Seq<usize>>, a: int, b: int, k: nat) -> bool
    decreases k,
{
    if k == 0 {
        a == b
    } else {
        exists|m: int| reach_k(g, a, m, (k - 1) as nat) && has_edge(g, m, b)
    }
}

/// `b` is reachable from `a` in zero or more steps.
pub open spec fn reachable(g: Seq<Seq<usize>>, a: int, b: int) -> bool {
    exists|k: nat| reach_k(g, a, b, k)
}

/// One more edge keeps a node reachable.
pub proof fn lemma_reachable_step(g: Seq<Seq<usize>>, a: int, m: int, b: int)
    requires
        reachable(g, a, m),
        has_edge(g, m, b),
    ensures
        reachable(g, a, b),
{
    let k = choose|k: nat| reach_k(g, a, m, k);
    assert(reach_k(g, a, b, k + 1));
}

/// Appending to a row adds exactly the new value to its contents.
pub proof fn lemma_row_contains_push(row: Seq<usize>, x: usize, b: int)
    ensures
        row_contains(row.push(x), b) <==> (row_contains(row, b) || b == x),
{
    if row_contains(row.push(x), b) {
        let k = choose|k: int| 0 <= k < row.push(x).len() && row.push(x)[k] == b;
        if k < row.len() {
            assert(row[k] == b);
        }
    }
    if row_contains(row, b) {
        let k = choose|k: int| 0 <= k < row.len() && row[k] == b;
        assert(row.push(x)[k] == b);
    }
    if b == x {
        assert(row.push(x)[row.len() as int] == x);
    }
}

/// Member `i` declares a dependency named like member `j`.
pub open spec fn declares_dep(members: Seq<Package>, i: int, j: int) -> bool {
    &&& 0 <= i < members.len()
    &&& 0 <= j < members.len()
    &&& exists|d: int|
        0 <= d < members[i].dependencies@.len() && (#[trigger] members[i].dependencies@[d]).name@
            == members[j].name@
}

/// Whether member `i` declares a dependency named like member `j`.
fn declares(members: &Vec<Package>, i: usize, j: usize) -> (r: bool)
    requires
        i < members@.len(),
        j < members@.len(),
    ensures
        r == declares_dep(members@, i as int, j as int),
{
    let mut d: usize = 0;
    while d < members[i].dependencies.len()
        invariant
            i < members@.len(),
            j < members@.len(),
            d <= members@[i as int].dependencies@.len(),
            forall|t: int|
                0 <= t < d ==> (#[trigger] members@[i as int].dependencies@[t]).name@
                    != members@[j as int].name@,
        decreases members@[i as int].dependencies@.len() - d,
    {
        if bytes_eq(&members[i].dependencies[d].name, &members[j].name) {
            return true;
        }
        d += 1;
    }
    false
}

/// Builds one graph row: all `b` in `0..members.len()` related to `a` by
/// the chosen orientation (`deps_of_a` picks the direction).
fn build_row(members: &Vec<Package>, a: usize, deps_of_a: bool) -> (row: Vec<usize>)
    requires
        a < members@.len(),
    ensures
        forall|b: int| #[trigger]
            row_contains(row@, b) <==> if deps_of_a {
                declares_dep(members@, a as int, b)
            } else {
                declares_dep(members@, b, a as int)
            },
        forall|k: int| 0 <= k < row@.len() ==> (#[trigger] row@[k]) < members@.len(),
{
    let mut row: Vec<usize> = Vec::new();
    let mut b: usize = 0;
    while b < members.len()
        invariant
            a < members@.len(),
            b <= members@.len(),
            forall|t: int| #[trigger]
                row_contains(row@, t) <==> (0 <= t < b && if deps_of_a {
                    declares_dep(members@, a as int, t)
                } else {
                    declares_dep(members@, t, a as int)
                }),
            forall|k: int| 0 <= k < row@.len() ==> (#[trigger] row@[k]) < members@.len(),
        decreases members@.len() - b,
    {
        let related = if deps_of_a {
            declares(members, a, b)
        } else {
            declares(members, b, a)
        };
        if related {
            let ghost oldrow = row@;
            row.push(b);
            proof {
                assert forall|t: int| #[trigger]
                    row_contains(row@, t) <==> (row_contains(oldrow, t) || t == b) by {
                    lemma_row_contains_push(oldrow, b, t);
                }
            }
        }
        b += 1;
    }
    row
}

/// Creates the pair of dependency graphs for a workspace: for each
/// member, a node in both graphs; for each declared dependency whose
/// name matches another member, an edge member-to-dependency in the
/// depends-on graph and the mirrored edge in the dependants graph.
/// Zero members yields two empty graphs; there is no error path.
pub fn workspace_graph(members: &Vec<Package>) -> (r: WorkspaceGraphs)
    ensures
        r.dependencies@.len() == members@.len(),
        r.dependants@.len() == members@.len(),
        graph_wf(graph_view(r.dependencies@)),
        graph_wf(graph_view(r.dependants@)),
        forall|i: int, j: int| #[trigger]
            has_edge(graph_view(r.dependencies@), i, j) <==> declares_dep(members@, i, j),
        forall|i: int, j: int| #[trigger]
            has_edge(graph_view(r.dependants@), j, i) <==> declares_dep(members@, i, j),
{
    let mut dependencies: Vec<Vec<usize>> = Vec::new();
    let mut a: usize = 0;
    while a < members.len()
        invariant
            a <= members@.len(),
            dependencies@.len() == a,
            forall|i: int, j: int|
                #![trigger row_contains(dependencies@[i]@, j)]
                #![trigger declares_dep(members@, i, j)]
                0 <= i < a ==> (row_contains(dependencies@[i]@, j) <==> declares_dep(
                    members@,
                    i,
                    j,
                )),
            forall|i: int, k: int|
                0 <= i < a && 0 <= k < dependencies@[i]@.len()
                    ==> (#[trigger] dependencies@[i]@[k]) < members@.len(),
        decreases members@.len() - a,
    {
        let row = build_row(members, a, true);
        dependencies.push(row);
        a += 1;
    }
    let mut dependants: Vec<Vec<usize>> = Vec::new();
    let mut c: usize = 0;
    while c < members.len()
        invariant
            c <= members@.len(),
            dependants@.len() == c,
            forall|i: int, j: int|
                #![trigger row_contains(dependants@[j]@, i)]
                #![trigger declares_dep(members@, i, j)]
                0 <= j < c ==> (row_contains(dependants@[j]@, i) <==> declares_dep(
                    members@,
                    i,
                    j,
                )),
            forall|i: int, k: int|
                0 <= i < c && 0 <= k < dependants@[i]@.len()
                    ==> (#[trigger] dependants@[i]@[k]) < members@.len(),
        decreases members@.len() - c,
    {
        let row = build_row(members, c, false);
        dependants.push(row);
        c += 1;
    }
    let r = WorkspaceGraphs { dependants, dependencies };
    proof {
        assert forall|i: int, j: int| #[trigger]
            has_edge(graph_view(r.dependencies@), i, j) <==> declares_dep(members@, i, j) by {
            if 0 <= i < r.dependencies@.len() {
                assert(graph_view(r.dependencies@)[i] == r.dependencies@[i]@);
            }
        }
        assert forall|i: int, j: int| #[trigger]
            has_edge(graph_view(r.dependants@), j, i) <==> declares_dep(members@, i, j) by {
            if 0 <= j < r.dependants@.len() {
                assert(graph_view(r.dependants@)[j] == r.dependants@[j]@);
            }
        }
    }
    r
}

/// Law: the two graphs are mirror images: an edge from `i` to `j` in the
/// depends-on graph corresponds exactly to an edge from `j` to `i` in
/// the dependants graph.
pub proof fn lemma_graphs_mirror(members: Seq<Package>, r: WorkspaceGraphs, i: int, j: int)
    requires
        forall|a: int, b: int| #[trigger]
            has_edge(graph_view(r.dependencies@), a, b) <==> declares_dep(members, a, b),
        forall|a: int, b: int| #[trigger]
            has_edge(graph_view(r.dependants@), b, a) <==> declares_dep(members, a, b),
    ensures
        has_edge(graph_view(r.dependencies@), i, j) <==> has_edge(graph_view(r.dependants@), j, i),
{
}

/// The number of false entries in a visited array.
pub open spec fn count_false(s: Seq<bool>) -> nat
    decreases s.len(),
{
    if s.len() == 0 {
        0
    } else {
        (if s[0] {
            0nat
        } else {
            1nat
        }) + count_false(s.subrange(1, s.len() as int))
    }
}

/// Marking a previously unvisited entry lowers the false count by one.
pub proof fn lemma_count_false_update(s: Seq<bool>, i: int)
    requires
        0 <= i < s.len(),
        !s[i],
    ensures
        count_false(s.update(i, true)) + 1 == count_false(s),
    decreases s.len(),
{
    let su = s.update(i, true);
    if i == 0 {
        assert(su.subrange(1, su.len() as int) =~= s.subrange(1, s.len() as int));
    } else {
        assert(su.subrange(1, su.len() as int) =~= s.subrange(1, s.len() as int).update(
            i - 1,
            true,
        ));
        lemma_count_false_update(s.subrange(1, s.len() as int), i - 1);
    }
}

/// An all-false visited array has as many false entries as elements.
pub proof fn lemma_count_false_all(s: Seq<bool>)
    requires
        forall|i: int| 0 <= i < s.len() ==> !s[i],
    ensures
        count_false(s) == s.len(),
    decreases s.len(),
{
    if s.len() > 0 {
        lemma_count_false_all(s.subrange(1, s.len() as int));
    }
}

/// The worklist holds the value `x`.
pub open spec fn in_stack(stack: Seq<usize>, x: int) -> bool {
    exists|i: int| 0 <= i < stack.len() && stack[i] == x
}

/// Every visited node outside the worklist already has all of its
/// successors visited.
pub open spec fn closure_except(g: Seq<Seq<usize>>, visited: Seq<bool>, stack: Seq<usize>) -> bool {
    forall|x: int, y: int|
        0 <= x < g.len() && visited[x] && #[trigger] has_edge(g, x, y) && !in_stack(stack, x)
            ==> visited[y]
}

/// Once the worklist is empty the visited set is closed under edges, so
/// it holds every node reachable from the root.
pub proof fn lemma_visited_closed(
    g: Seq<Seq<usize>>,
    visited: Seq<bool>,
    root: int,
    b: int,
    k: nat,
)
    requires
        graph_wf(g),
        visited.len() == g.len(),
        0 <= root < g.len(),
        visited[root],
        closure_except(g, visited, Seq::empty()),
        reach_k(g, root, b, k),
    ensures
        0 <= b < g.len() && visited[b],
    decreases k,
{
    if k == 0 {
    } else {
        let m = choose|m: int| reach_k(g, root, m, (k - 1) as nat) && has_edge(g, m, b);
        lemma_visited_closed(g, visited, root, m, (k - 1) as nat);
        assert(!in_stack(Seq::empty(), m));
        let kk = choose|kk: int| 0 <= kk < g[m].len() && g[m][kk] == b;
        assert(g[m][kk] < g.len());
    }
}

/// What the dependant collector returns: a strictly ascending list of
/// member indices holding exactly the members reachable over the
/// dependants graph from the root, the root itself excluded.
pub open spec fn dependants_post(g: Seq<Seq<usize>>, root: int, r: Seq<usize>) -> bool {
    &&& forall|a: int, b: int| 0 <= a < b < r.len() ==> r[a] < r[b]
    &&& forall|x: int|
        #![trigger row_contains(r, x)]
        #![trigger reachable(g, root, x)]
        row_contains(r, x) <==> (0 <= x < g.len() && x != root && reachable(g, root, x))
}

/// Collects dependants to update: the deduplicated transitive closure
/// over the dependants graph from the root package. The explicit
/// visited set defends against diamond paths and cycles, and the result
/// comes back in ascending index order, so repeated calls on the same
/// graph return the same list. Any order shown to an operator is
/// cosmetic; bump resolution depends only on membership in this list.
pub fn collect_dependants(graphs: &WorkspaceGraphs, root: usize) -> (r: Vec<usize>)
    requires
        graph_wf(graph_view(graphs.dependants@)),
        root < graphs.dependants@.len(),
    ensures
        dependants_post(graph_view(graphs.dependants@), root as int, r@),
{
    let ghost g = graph_view(graphs.dependants@);
    let n = graphs.dependants.len();
    let mut visited: Vec<bool> = Vec::new();
    while visited.len() < n
        invariant
            visited@.len() <= n,
            forall|i: int| 0 <= i < visited@.len() ==> !visited@[i],
        decreases n - visited@.len(),
    {
        visited.push(false);
    }
    proof {
        lemma_count_false_all(visited@);
        lemma_count_false_update(visited@, root as int);
        assert(reach_k(g, root as int, root as int, 0));
    }
    let ghost v_base = visited@;
    visited[root] = true;
    let mut stack: Vec<usize> = Vec::new();
    stack.push(root);
    proof {
        assert(stack@[0] == root);
        assert(in_stack(stack@, root as int));
        assert forall|x: int, y: int|
            0 <= x < g.len() && visited@[x] && #[trigger] has_edge(g, x, y) && !in_stack(
                stack@,
                x,
            ) implies visited@[y] by {
            assert(x != root as int ==> !v_base[x]);
        }
    }
    while stack.len() > 0
        invariant
            g == graph_view(graphs.dependants@),
            graph_wf(g),
            n == g.len(),
            root < n,
            visited@.len() == n,
            visited@[root as int],
            forall|x: int| 0 <= x < n && #[trigger] visited@[x] ==> reachable(g, root as int, x),
            forall|i: int|
                0 <= i < stack@.len() ==> (#[trigger] stack@[i]) < n && visited@[stack@[i] as int],
            closure_except(g, visited@, stack@),
        decreases count_false(visited@), stack@.len(),
    {
        let ghost c0 = count_false(visited@);
        let ghost l0 = stack@.len();
        let ghost s_pre = stack@;
        let p = stack.pop().unwrap();
        proof {
            assert(s_pre =~= stack@.push(p));
        }
        let deg = graphs.dependants[p].len();
        proof {
            assert(g[p as int] == graphs.dependants@[p as int]@);
        }
        let mut j: usize = 0;
        while j < deg
            invariant
                g == graph_view(graphs.dependants@),
                graph_wf(g),
                n == g.len(),
                root < n,
                p < n,
                visited@.len() == n,
                visited@[root as int],
                visited@[p as int],
                j <= deg,
                deg == g[p as int].len(),
                forall|x: int| 0 <= x < n && #[trigger] visited@[x] ==> reachable(
                    g,
                    root as int,
                    x,
                ),
                forall|i: int|
                    0 <= i < stack@.len() ==> (#[trigger] stack@[i]) < n && visited@[stack@[i] as int],
                closure_except(g, visited@, stack@.push(p)),
                forall|t: int| 0 <= t < j ==> visited@[#[trigger] g[p as int][t] as int],
                count_false(visited@) + stack@.len() == c0 + l0 - 1,
                count_false(visited@) <= c0,
            decreases deg - j,
        {
            let q = graphs.dependants[p][j];
            proof {
                assert(g[p as int][j as int] == q);
                assert(q < n);
            }
            if !visited[q] {
                proof {
                    assert(has_edge(g, p as int, q as int)) by {
                        assert(g[p as int][j as int] == q);
                    }
                    lemma_reachable_step(g, root as int, p as int, q as int);
                    lemma_count_false_update(visited@, q as int);
                }
                let ghost v_old = visited@;
                let ghost s_old = stack@;
                visited[q] = true;
                stack.push(q);
                proof {
                    assert(in_stack(stack@.push(p), q as int)) by {
                        assert(stack@.push(p)[s_old.len() as int] == q);
                    }
                    assert forall|x: int, y: int|
                        0 <= x < g.len() && visited@[x] && #[trigger] has_edge(g, x, y)
                            && !in_stack(stack@.push(p), x) implies visited@[y] by {
                        assert(x != q);
                        assert(v_old[x]);
                        assert(!in_stack(s_old.push(p), x)) by {
                            if in_stack(s_old.push(p), x) {
                                let i = choose|i: int|
                                    0 <= i < s_old.push(p).len() && s_old.push(p)[i] == x;
                                if i < s_old.len() {
                                    assert(stack@.push(p)[i] == x);
                                } else {
                                    assert(stack@.push(p)[stack@.len() as int] == x);
                                }
                            }
                        }
                        if y != q as int {
                            assert(v_old[y]);
                        }
                    }
                }
            }
            j += 1;
        }
        proof {
            assert forall|x: int, y: int|
                0 <= x < g.len() && visited@[x] && #[trigger] has_edge(g, x, y) && !in_stack(
                    stack@,
                    x,
                ) implies visited@[y] by {
                if x == p as int {
                    let kk = choose|kk: int| 0 <= kk < g[x].len() && g[x][kk] == y;
                    assert(visited@[g[p as int][kk] as int]);
                } else {
                    assert(!in_stack(stack@.push(p), x)) by {
                        if in_stack(stack@.push(p), x) {
                            let i = choose|i: int|
                                0 <= i < stack@.push(p).len() && stack@.push(p)[i] == x;
                            if i < stack@.len() {
                                assert(stack@[i] == x);
                            }
                        }
                    }
                }
            }
        }
    }
    proof {
        assert(stack@ =~= Seq::<usize>::empty());
    }
    let mut result: Vec<usize> = Vec::new();
    let mut i: usize = 0;
    while i < n
        invariant
            n == g.len(),
            root < n,
            visited@.len() == n,
            i <= n,
            forall|a: int, b: int| 0 <= a < b < result@.len() ==> result@[a] < result@[b],
            forall|k: int| 0 <= k < result@.len() ==> (#[trigger] result@[k]) < i,
            forall|x: int|
                #![trigger row_contains(result@, x)]
                row_contains(result@, x) <==> (0 <= x < i && x != root && visited@[x]),
        decreases n - i,
    {
        if i != root && visited[i] {
            let ghost oldr = result@;
            result.push(i);
            proof {
                assert forall|x: int| #[trigger]
                    row_contains(result@, x) <==> (row_contains(oldr, x) || x == i) by {
                    lemma_row_contains_push(oldr, i, x);
                }
                assert forall|a: int, b: int|
                    0 <= a < b < result@.len() implies result@[a] < result@[b] by {
                    if b == result@.len() - 1 {
                        assert(result@[a] == oldr[a]);
                    }
                }
            }
        } else {
            proof {
                assert forall|x: int| #[trigger]
                    row_contains(result@, x) implies (0 <= x < i + 1 && x != root && visited@[x])
                    by {}
                assert forall|x: int|
                    (0 <= x < i + 1 && x != root && visited@[x]) implies #[trigger] row_contains(
                        result@,
                        x,
                    ) by {
                    if x < i {
                    } else {
                        assert(x == i && (i == root || !visited@[x]));
                    }
                }
            }
        }
        i += 1;
    }
    proof {
        assert forall|x: int|
            0 <= x < n && reachable(g, root as int, x) implies visited@[x] by {
            let k = choose|k: nat| reach_k(g, root as int, x, k);
            lemma_visited_closed(g, visited@, root as int, x, k);
        }
        assert forall|x: int| #[trigger]
            row_contains(result@, x) <==> (0 <= x < g.len() && x != root && reachable(
                g,
                root as int,
                x,
            )) by {
            if row_contains(result@, x) {
            } else {
                if 0 <= x < g.len() && x != root && reachable(g, root as int, x) {
                    assert(visited@[x]);
                }
            }
        }
    }
    result
}

/// Two strictly ascending lists with the same contents are equal.
pub proof fn lemma_ascending_same_contents_equal(r1: Seq<usize>, r2: Seq<usize>)
    requires
        forall|a: int, b: int| 0 <= a < b < r1.len() ==> r1[a] < r1[b],
        forall|a: int, b: int| 0 <= a < b < r2.len() ==> r2[a] < r2[b],
        forall|x: int| row_contains(r1, x) <==> row_contains(r2, x),
    ensures
        r1 == r2,
    decreases r1.len(),
{
    if r1.len() == 0 {
        if r2.len() > 0 {
            assert(row_contains(r2, r2[0] as int)) by {
                assert(r2[0] == r2[0]);
            }
            assert(row_contains(r1, r2[0] as int));
            let k = choose|k: int| 0 <= k < r1.len() && r1[k] == r2[0];
            assert(false);
        }
        assert(r1 =~= r2);
    } else {
        if r2.len() == 0 {
            assert(row_contains(r1, r1[0] as int)) by {
                assert(r1[0] == r1[0]);
            }
            assert(row_contains(r2, r1[0] as int));
            let k = choose|k: int| 0 <= k < r2.len() && r2[k] == r1[0];
            assert(false);
        }
        assert(row_contains(r1, r1[0] as int)) by {
            assert(r1[0] == r1[0]);
        }
        assert(row_contains(r2, r2[0] as int)) by {
            assert(r2[0] == r2[0]);
        }
        let k2 = choose|k: int| 0 <= k < r2.len() && r2[k] == r1[0];
        let k1 = choose|k: int| 0 <= k < r1.len() && r1[k] == r2[0];
        assert(r2[0] <= r2[k2]);
        assert(r1[0] <= r1[k1]);
        assert(r1[0] == r2[0]);
        let t1 = r1.subrange(1, r1.len() as int);
        let t2 = r2.subrange(1, r2.len() as int);
        assert forall|x: int| row_contains(t1, x) <==> row_contains(t2, x) by {
            assert forall|x2: int| row_contains(t1, x2) implies row_contains(r1, x2) && x2
                > r1[0] by {
                let k = choose|k: int| 0 <= k < t1.len() && t1[k] == x2;
                assert(r1[k + 1] == x2);
            }
            assert forall|x2: int| row_contains(t2, x2) implies row_contains(r2, x2) && x2
                > r2[0] by {
                let k = choose|k: int| 0 <= k < t2.len() && t2[k] == x2;
                assert(r2[k + 1] == x2);
            }
            if row_contains(t1, x) {
                let k = choose|k: int| 0 <= k < r2.len() && r2[k] == x;
                assert(k != 0);
                assert(t2[k - 1] == x);
            }
            if row_contains(t2, x) {
                let k = choose|k: int| 0 <= k < r1.len() && r1[k] == x;
                assert(k != 0);
                assert(t1[k - 1] == x);
            }
        }
        lemma_ascending_same_contents_equal(t1, t2);
        assert(t1.len() == t2.len());
        assert forall|i: int| 0 <= i < r1.len() implies r1[i] == r2[i] by {
            if i > 0 {
                assert(t1[i - 1] == r1[i]);
                assert(t2[i - 1] == r2[i]);
            }
        }
        assert(r1 =~= r2);
    }
}

/// Law: dependant collection is idempotent and duplicate-free across
/// repeated calls on the same graph, including diamond-shaped dependency
/// structures: any two results for the same graph and root are equal,
/// and no index appears twice.
pub proof fn lemma_collect_dependants_idempotent(
    g: Seq<Seq<usize>>,
    root: int,
    r1: Seq<usize>,
    r2: Seq<usize>,
)
    requires
        dependants_post(g, root, r1),
        dependants_post(g, root, r2),
    ensures
        r1 == r2,
        forall|a: int, b: int| 0 <= a < b < r1.len() ==> r1[a] != r1[b],
{
    lemma_ascending_same_contents_equal(r1, r2);
}


/// Byte-string order: `a` sorts at or before `b`.
pub open spec fn lex_le(a: Seq<u8>, b: Seq<u8>) -> bool
    decreases a.len(),
{
    if a.len() == 0 {
        true
    } else if b.len() == 0 {
        false
    } else if a[0] < b[0] {
        true
    } else if a[0] > b[0] {
        false
    } else {
        lex_le(a.subrange(1, a.len() as int), b.subrange(1, b.len() as int))
    }
}

/// The byte-string order is total.
pub proof fn lemma_lex_le_total(a: Seq<u8>, b: Seq<u8>)
    ensures
        lex_le(a, b) || lex_le(b, a),
    decreases a.len(),
{
    if a.len() == 0 {
    } else if b.len() == 0 {
    } else if a[0] == b[0] {
        lemma_lex_le_total(a.subrange(1, a.len() as int), b.subrange(1, b.len() as int));
    }
}

/// The byte-string order is transitive.
pub proof fn lemma_lex_le_trans(a: Seq<u8>, b: Seq<u8>, c: Seq<u8>)
    requires
        lex_le(a, b),
        lex_le(b, c),
    ensures
        lex_le(a, c),
    decreases a.len(),
{
    if a.len() == 0 {
    } else {
        assert(b.len() > 0);
        assert(c.len() > 0);
        if a[0] == b[0] && b[0] == c[0] {
            lemma_lex_le_trans(
                a.subrange(1, a.len() as int),
                b.subrange(1, b.len() as int),
                c.subrange(1, c.len() as int),
            );
        }
    }
}

/// Whether `a` sorts at or before `b`.
fn lex_le_bytes(a: &Vec<u8>, b: &Vec<u8>) -> (r: bool)
    ensures
        r == lex_le(a@, b@),
{
    let mut i: usize = 0;
    proof {
        assert(a@.subrange(0, a@.len() as int) =~= a@);
        assert(b@.subrange(0, b@.len() as int) =~= b@);
    }
    while i < a.len() && i < b.len()
        invariant
            i <= a@.len(),
            i <= b@.len(),
            lex_le(a@, b@) == lex_le(
                a@.subrange(i as int, a@.len() as int),
                b@.subrange(i as int, b@.len() as int),
            ),
        decreases a@.len() - i,
    {
        let ghost sa = a@.subrange(i as int, a@.len() as int);
        let ghost sb = b@.subrange(i as int, b@.len() as int);
        if a[i] < b[i] {
            proof {
                assert(sa[0] == a@[i as int]);
                assert(sb[0] == b@[i as int]);
                assert(lex_le(sa, sb));
            }
            return true;
        }
        if a[i] > b[i] {
            proof {
                assert(sa[0] == a@[i as int]);
                assert(sb[0] == b@[i as int]);
                assert(!lex_le(sa, sb));
            }
            return false;
        }
        proof {
            assert(sa[0] == sb[0]);
            assert(sa.subrange(1, sa.len() as int) =~= a@.subrange(i + 1, a@.len() as int));
            assert(sb.subrange(1, sb.len() as int) =~= b@.subrange(i + 1, b@.len() as int));
        }
        i += 1;
    }
    if i >= a.len() {
        proof {
            assert(a@.subrange(i as int, a@.len() as int).len() == 0);
        }
        true
    } else {
        proof {
            assert(b@.subrange(i as int, b@.len() as int).len() == 0);
            assert(a@.subrange(i as int, a@.len() as int).len() > 0);
        }
        false
    }
}

/// The presentation order of two members, for display only: unchanged
/// packages come before changed ones, and names ascend within each
/// partition. The order is cosmetic and carries no bump information.
pub open spec fn presentation_le(members: Seq<Package>, x: int, y: int) -> bool {
    if members[x].spec_is_changed() == members[y].spec_is_changed() {
        lex_le(members[x].name@, members[y].name@)
    } else {
        !members[x].spec_is_changed()
    }
}

/// The presentation order is total.
pub proof fn lemma_presentation_le_total(members: Seq<Package>, x: int, y: int)
    ensures
        presentation_le(members, x, y) || presentation_le(members, y, x),
{
    lemma_lex_le_total(members[x].name@, members[y].name@);
}

/// The presentation order is transitive.
pub proof fn lemma_presentation_le_trans(members: Seq<Package>, x: int, y: int, z: int)
    requires
        presentation_le(members, x, y),
        presentation_le(members, y, z),
    ensures
        presentation_le(members, x, z),
{
    if members[x].spec_is_changed() == members[y].spec_is_changed()
        && members[y].spec_is_changed() == members[z].spec_is_changed() {
        lemma_lex_le_trans(members[x].name@, members[y].name@, members[z].name@);
    }
}

/// Whether member `x` presents at or before member `y`.
fn presentation_le_exec(members: &Vec<Package>, x: usize, y: usize) -> (r: bool)
    requires
        x < members@.len(),
        y < members@.len(),
    ensures
        r == presentation_le(members@, x as int, y as int),
{
    let cx = members[x].is_changed();
    let cy = members[y].is_changed();
    if cx == cy {
        lex_le_bytes(&members[x].name, &members[y].name)
    } else {
        !cx
    }
}

/// Orders the collected dependants for presentation: unchanged
/// packages first, then changed ones, names ascending within each
/// partition. The result is a permutation of the input; the order is
/// cosmetic only and must not influence bump computation, which reads
/// membership alone.
pub fn presentation_order(members: &Vec<Package>, dependants: &Vec<usize>) -> (r: Vec<usize>)
    requires
        forall|k: int| 0 <= k < dependants@.len() ==> (#[trigger] dependants@[k]) < members@.len(),
    ensures
        r@.to_multiset() == dependants@.to_multiset(),
        forall|a: int, b: int|
            #![trigger r@[a], r@[b]]
            0 <= a < b < r@.len() ==> presentation_le(members@, r@[a] as int, r@[b] as int),
        forall|k: int| 0 <= k < r@.len() ==> (#[trigger] r@[k]) < members@.len(),
{
    let mut out: Vec<usize> = Vec::new();
    let mut i: usize = 0;
    proof {
        assert(out@ =~= dependants@.subrange(0, 0));
    }
    while i < dependants.len()
        invariant
            i <= dependants@.len(),
            forall|k: int|
                0 <= k < dependants@.len() ==> (#[trigger] dependants@[k]) < members@.len(),
            out@.to_multiset() == dependants@.subrange(0, i as int).to_multiset(),
            forall|a: int, b: int|
                #![trigger out@[a], out@[b]]
                0 <= a < b < out@.len() ==> presentation_le(members@, out@[a] as int, out@[b] as int),
            forall|k: int| 0 <= k < out@.len() ==> (#[trigger] out@[k]) < members@.len(),
        decreases dependants@.len() - i,
    {
        let x = dependants[i];
        let mut p: usize = 0;
        while p < out.len() && presentation_le_exec(members, out[p], x)
            invariant
                p <= out@.len(),
                x < members@.len(),
                forall|k: int| 0 <= k < out@.len() ==> (#[trigger] out@[k]) < members@.len(),
                forall|t: int|
                    0 <= t < p ==> presentation_le(members@, #[trigger] out@[t] as int, x as int),
            decreases out@.len() - p,
        {
            p += 1;
        }
        let ghost old_out = out@;
        proof {
            if p < out@.len() {
                lemma_presentation_le_total(members@, out@[p as int] as int, x as int);
                assert(presentation_le(members@, x as int, out@[p as int] as int));
            }
            vstd::seq_lib::to_multiset_insert(out@, p as int, x);
            vstd::seq_lib::to_multiset_build(dependants@.subrange(0, i as int), x);
            assert(dependants@.subrange(0, i as int).push(dependants@[i as int])
                =~= dependants@.subrange(0, i + 1));
        }
        out.insert(p, x);
        proof {
            assert forall|a: int, b: int|
                0 <= a < b < out@.len() implies presentation_le(
                members@,
                #[trigger] out@[a] as int,
                #[trigger] out@[b] as int,
            ) by {
                if b < p {
                    assert(out@[a] == old_out[a] && out@[b] == old_out[b]);
                } else if b == p {
                    assert(out@[a] == old_out[a]);
                    assert(out@[b] == x);
                } else if a < p {
                    assert(out@[a] == old_out[a] && out@[b] == old_out[b - 1]);
                    if a == b - 1 {
                        lemma_presentation_le_total(members@, old_out[a] as int, old_out[a] as int);
                    }
                } else if a == p {
                    assert(out@[a] == x && out@[b] == old_out[b - 1]);
                    assert(presentation_le(members@, x as int, old_out[p as int] as int));
                    if b - 1 > p {
                        lemma_presentation_le_trans(
                            members@,
                            x as int,
                            old_out[p as int] as int,
                            old_out[b - 1] as int,
                        );
                    }
                } else {
                    assert(out@[a] == old_out[a - 1] && out@[b] == old_out[b - 1]);
                }
            }
        }
        i += 1;
    }
    proof {
        assert(dependants@.subrange(0, dependants@.len() as int) =~= dependants@);
    }
    out
}

} // verus!
