use vstd::prelude::*;
use crate::config::AccountConfig;
use crate::errors::ForgeError;

verus! {

/// The node names of a dependency graph, in declaration order.
pub open spec fn graph_keys(deps: Seq<(String, Vec<String>)>) -> Seq<Seq<char>> {
    deps.map_values(|e: (String, Vec<String>)| e.0@)
}

/// No two nodes carry the same name.
pub open spec fn distinct_keys(deps: Seq<(String, Vec<String>)>) -> bool {
    forall|i: int, k: int|
        0 <= i < k < deps.len() ==> graph_keys(deps)[i] != graph_keys(deps)[k]
}

/// Every listed successor is itself a node of the graph.
pub open spec fn targets_closed(deps: Seq<(String, Vec<String>)>) -> bool {
    forall|i: int, t: int|
        0 <= i < deps.len() && 0 <= t < deps[i].1@.len() ==> graph_keys(deps).contains(
            #[trigger] deps[i].1@[t]@,
        )
}

pub open spec fn wf_graph(deps: Seq<(String, Vec<String>)>) -> bool {
    distinct_keys(deps) && targets_closed(deps)
}

/// Node `u` lists node `v` among its successors: `u` must precede `v`.
pub open spec fn has_edge_idx(deps: Seq<(String, Vec<String>)>, u: int, v: int) -> bool {
    &&& 0 <= u < deps.len()
    &&& 0 <= v < deps.len()
    &&& exists|t: int| 0 <= t < deps[u].1@.len() && deps[u].1@[t]@ == deps[v].0@
}

/// The node indices `c` form a directed cycle.
pub open spec fn is_cycle(deps: Seq<(String, Vec<String>)>, c: Seq<int>) -> bool {
    &&& c.len() >= 1
    &&& forall|k: int| 0 <= k < c.len() ==> 0 <= #[trigger] c[k] < deps.len()
    &&& forall|k: int| 0 <= k < c.len() - 1 ==> has_edge_idx(deps, c[k], #[trigger] c[k + 1])
    &&& has_edge_idx(deps, c[c.len() - 1], c[0])
}

pub open spec fn has_cycle(deps: Seq<(String, Vec<String>)>) -> bool {
    exists|c: Seq<int>| is_cycle(deps, c)
}

/// Some cycle of the graph runs through the node of this name.
pub open spec fn cycle_through(deps: Seq<(String, Vec<String>)>, name: Seq<char>) -> bool {
    exists|c: Seq<int>, k: int|
        is_cycle(deps, c) && 0 <= k < c.len() && deps[c[k]].0@ == name
}

/// Where a name stands in an ordering (meaningful when it occurs exactly
/// once).
pub open spec fn order_position(order: Seq<String>, name: Seq<char>) -> int {
    choose|p: int| 0 <= p < order.len() && order[p]@ == name
}

/// The name occurs somewhere in the ordering.
pub open spec fn occurs(order: Seq<String>, name: Seq<char>) -> bool {
    exists|p: int| 0 <= p < order.len() && order[p]@ == name
}

/// The ordering lists exactly the node names, each once.
pub open spec fn is_permutation_of_keys(
    deps: Seq<(String, Vec<String>)>,
    order: Seq<String>,
) -> bool {
    &&& order.len() == deps.len()
    &&& forall|i: int| 0 <= i < deps.len() ==> occurs(order, #[trigger] deps[i].0@)
    &&& forall|p: int, q: int| 0 <= p < q < order.len() ==> order[p]@ != order[q]@
}

/// Every node stands before each of its successors.
pub open spec fn respects_edges(deps: Seq<(String, Vec<String>)>, order: Seq<String>) -> bool {
    forall|u: int, v: int|
        #[trigger] has_edge_idx(deps, u, v) ==> order_position(order, deps[u].0@)
            < order_position(order, deps[v].0@)
}

/// A valid topological order of the graph: for every edge u -> v, u precedes
/// v, and ties are broken deterministically by the algorithm itself.
pub open spec fn is_topo_order(deps: Seq<(String, Vec<String>)>, order: Seq<String>) -> bool {
    is_permutation_of_keys(deps, order) && respects_edges(deps, order)
}

spec fn count_true(s: Seq<bool>) -> nat
    decreases s.len(),
{
    if s.len() == 0 {
        0
    } else {
        count_true(s.drop_last()) + (if s.last() {
            1nat
        } else {
            0nat
        })
    }
}

proof fn lemma_count_true_le(s: Seq<bool>)
    ensures
        count_true(s) <= s.len(),
    decreases s.len(),
{
    if s.len() > 0 {
        lemma_count_true_le(s.drop_last());
    }
}

proof fn lemma_count_true_lt(s: Seq<bool>, j: int)
    requires
        0 <= j < s.len(),
        !s[j],
    ensures
        count_true(s) < s.len(),
    decreases s.len(),
{
    if j == s.len() - 1 {
        lemma_count_true_le(s.drop_last());
    } else {
        lemma_count_true_lt(s.drop_last(), j);
    }
}

proof fn lemma_count_true_update(s: Seq<bool>, j: int)
    requires
        0 <= j < s.len(),
        !s[j],
    ensures
        count_true(s.update(j, true)) == count_true(s) + 1,
    decreases s.len(),
{
    let t = s.update(j, true);
    if j == s.len() - 1 {
        assert(t.drop_last() =~= s.drop_last());
    } else {
        assert(t.drop_last() =~= s.drop_last().update(j, true));
        lemma_count_true_update(s.drop_last(), j);
    }
}

proof fn lemma_count_true_full(s: Seq<bool>)
    requires
        forall|i: int| 0 <= i < s.len() ==> s[i],
    ensures
        count_true(s) == s.len(),
    decreases s.len(),
{
    if s.len() > 0 {
        lemma_count_true_full(s.drop_last());
    }
}

proof fn lemma_count_true_zero(s: Seq<bool>)
    requires
        forall|i: int| 0 <= i < s.len() ==> !s[i],
    ensures
        count_true(s) == 0,
    decreases s.len(),
{
    if s.len() > 0 {
        lemma_count_true_zero(s.drop_last());
    }
}

/// Whether node `u` lists node `v` among its successors.
fn edge_to(deps: &Vec<(String, Vec<String>)>, u: usize, v: usize) -> (r: bool)
    requires
        u < deps@.len(),
        v < deps@.len(),
    ensures
        r == has_edge_idx(deps@, u as int, v as int),
{
    let succs: &Vec<String> = &deps[u].1;
    let mut t: usize = 0;
    while t < succs.len()
        invariant
            t <= succs@.len(),
            succs@ == deps@[u as int].1@,
            u < deps@.len(),
            v < deps@.len(),
            forall|t2: int| 0 <= t2 < t ==> succs@[t2]@ != deps@[v as int].0@,
        decreases succs@.len() - t,
    {
        if succs[t] == deps[v].0 {
            return true;
        }
        t = t + 1;
    }
    false
}

/// Finds a not-yet-placed node that still points at `v`, if any.
fn find_unplaced_pred(deps: &Vec<(String, Vec<String>)>, placed: &Vec<bool>, v: usize) -> (r:
    Option<usize>)
    requires
        placed@.len() == deps@.len(),
        v < deps@.len(),
    ensures
        match r {
            Some(u) => u < deps@.len() && !placed@[u as int] && has_edge_idx(
                deps@,
                u as int,
                v as int,
            ),
            None => forall|u: int|
                0 <= u < deps@.len() && !placed@[u] ==> !has_edge_idx(deps@, u, v as int),
        },
{
    let mut u: usize = 0;
    while u < deps.len()
        invariant
            u <= deps@.len(),
            placed@.len() == deps@.len(),
            v < deps@.len(),
            forall|u2: int| 0 <= u2 < u && !placed@[u2] ==> !has_edge_idx(deps@, u2, v as int),
        decreases deps@.len() - u,
    {
        if !placed[u] {
            if edge_to(deps, u, v) {
                return Some(u);
            }
        }
        u = u + 1;
    }
    None
}

/// Finds the first node that is not yet placed and has no unplaced
/// predecessor: the next node a deterministic topological ordering emits.
fn find_ready(deps: &Vec<(String, Vec<String>)>, placed: &Vec<bool>) -> (r: Option<usize>)
    requires
        placed@.len() == deps@.len(),
    ensures
        match r {
            Some(c) => c < deps@.len() && !placed@[c as int] && forall|u: int|
                0 <= u < deps@.len() && !placed@[u] ==> !has_edge_idx(deps@, u, c as int),
            None => forall|i: int|
                0 <= i < deps@.len() && !placed@[i] ==> exists|u: int|
                    0 <= u < deps@.len() && !placed@[u] && has_edge_idx(deps@, u, i),
        },
{
    let mut c: usize = 0;
    while c < deps.len()
        invariant
            c <= deps@.len(),
            placed@.len() == deps@.len(),
            forall|i: int|
                0 <= i < c && !placed@[i] ==> exists|u: int|
                    0 <= u < deps@.len() && !placed@[u] && has_edge_idx(deps@, u, i),
        decreases deps@.len() - c,
    {
        if !placed[c] {
            match find_unplaced_pred(deps, placed, c) {
                None => {
                    return Some(c);
                },
                Some(_) => {},
            }
        }
        c = c + 1;
    }
    None
}

/// Finds any node that is not placed yet.
fn find_unplaced(placed: &Vec<bool>) -> (r: Option<usize>)
    ensures
        match r {
            Some(i) => i < placed@.len() && !placed@[i as int],
            None => forall|i: int| 0 <= i < placed@.len() ==> placed@[i],
        },
{
    let mut i: usize = 0;
    while i < placed.len()
        invariant
            i <= placed@.len(),
            forall|i2: int| 0 <= i2 < i ==> placed@[i2],
        decreases placed@.len() - i,
    {
        if !placed[i] {
            return Some(i);
        }
        i = i + 1;
    }
    None
}

/// In a stuck state (every remaining node still has a remaining
/// predecessor), walks predecessor edges from `start` until one repeats; the
/// repeated node witnesses a dependency cycle.
fn report_cycle(deps: &Vec<(String, Vec<String>)>, placed: &Vec<bool>, start: usize) -> (r:
    ForgeError)
    requires
        placed@.len() == deps@.len(),
        start < deps@.len(),
        !placed@[start as int],
        forall|i: int|
            0 <= i < deps@.len() && !placed@[i] ==> exists|u: int|
                0 <= u < deps@.len() && !placed@[u] && has_edge_idx(deps@, u, i),
    ensures
        r matches ForgeError::DependencyCycle { involved_account } && cycle_through(
            deps@,
            involved_account@,
        ),
{
    let n = deps.len();
    let mut in_walk: Vec<bool> = Vec::new();
    let mut z: usize = 0;
    while z < n
        invariant
            in_walk@.len() == z <= n,
            forall|t: int| 0 <= t < z ==> !in_walk@[t],
        decreases n - z,
    {
        in_walk.push(false);
        z = z + 1;
    }
    proof {
        lemma_count_true_zero(in_walk@);
    }

    let mut walk: Vec<usize> = Vec::new();
    let ghost pre0 = in_walk@;
    walk.push(start);
    in_walk[start] = true;
    proof {
        assert(in_walk@ =~= pre0.update(start as int, true));
        lemma_count_true_update(pre0, start as int);
        assert forall|i: int| 0 <= i < n implies (in_walk@[i] <==> walk@.contains(i as usize)) by {
            if i == start as int {
                assert(walk@[0] == start);
            } else {
                if walk@.contains(i as usize) {
                    let t = choose|t: int| 0 <= t < walk@.len() && walk@[t] == i as usize;
                    assert(t == 0);
                }
            }
        }
    }

    loop
        invariant
            n == deps@.len(),
            placed@.len() == n,
            in_walk@.len() == n,
            1 <= walk@.len(),
            count_true(in_walk@) == walk@.len(),
            forall|t: int|
                0 <= t < walk@.len() ==> #[trigger] walk@[t] < n && !placed@[walk@[t] as int],
            forall|i: int| 0 <= i < n ==> (in_walk@[i] <==> walk@.contains(i as usize)),
            walk@.no_duplicates(),
            forall|t: int|
                0 <= t < walk@.len() - 1 ==> has_edge_idx(
                    deps@,
                    walk@[t + 1] as int,
                    #[trigger] walk@[t] as int,
                ),
            forall|i: int|
                0 <= i < deps@.len() && !placed@[i] ==> exists|u: int|
                    0 <= u < deps@.len() && !placed@[u] && has_edge_idx(deps@, u, i),
        decreases n - walk@.len(),
    {
        let cur = walk[walk.len() - 1];
        let pred = match find_unplaced_pred(deps, placed, cur) {
            Some(u) => u,
            None => {
                proof {
                    assert(walk@.contains(cur));
                    assert(false);
                }
                vstd::pervasive::unreached()
            },
        };
        if in_walk[pred] {
            proof {
                assert(walk@.contains(pred));
                let t0 = choose|t: int| 0 <= t < walk@.len() && walk@[t] == pred;
                let w = walk@;
                let len = w.len() as int;
                let c = Seq::new((len - t0) as nat, |m: int| w[len - 1 - m] as int);
                assert forall|m: int| 0 <= m < c.len() - 1 implies has_edge_idx(
                    deps@,
                    c[m],
                    #[trigger] c[m + 1],
                ) by {
                    let t = len - 2 - m;
                    assert(has_edge_idx(deps@, w[t + 1] as int, w[t] as int));
                }
                assert(c[c.len() - 1] == w[t0] as int);
                assert(c[0] == w[len - 1] as int);
                assert(has_edge_idx(deps@, c[c.len() - 1], c[0]));
                assert(is_cycle(deps@, c));
                assert(deps@[c[(len - 1 - t0) as int]].0@ == deps@[pred as int].0@);
                assert(cycle_through(deps@, deps@[pred as int].0@));
            }
            return ForgeError::DependencyCycle { involved_account: deps[pred].0.clone() };
        }
        let ghost pre_w = in_walk@;
        let ghost pre_walk = walk@;
        walk.push(pred);
        in_walk[pred] = true;
        proof {
            assert(in_walk@ =~= pre_w.update(pred as int, true));
            assert(!pre_w[pred as int]);
            lemma_count_true_update(pre_w, pred as int);
            lemma_count_true_le(in_walk@);
            assert forall|i: int| 0 <= i < n implies (in_walk@[i] <==> walk@.contains(
                i as usize,
            )) by {
                if i == pred as int {
                    assert(walk@[walk@.len() - 1] == pred);
                } else {
                    if pre_w[i] {
                        let t = choose|t: int| 0 <= t < pre_walk.len() && pre_walk[t] == i as usize;
                        assert(walk@[t] == i as usize);
                    } else {
                        if walk@.contains(i as usize) {
                            let t = choose|t: int|
                                0 <= t < walk@.len() && walk@[t] == i as usize;
                            assert(t < pre_walk.len());
                            assert(pre_walk[t] == i as usize);
                        }
                    }
                }
            }
            assert(!pre_walk.contains(pred));
        }
    }
}

/// A strict chain of positions along a cycle: the start of the cycle can
/// stand no later than any node reached from it.
proof fn lemma_cycle_position_chain(
    deps: Seq<(String, Vec<String>)>,
    order: Seq<String>,
    c: Seq<int>,
    k: int,
)
    requires
        is_topo_order(deps, order),
        is_cycle(deps, c),
        0 <= k < c.len(),
    ensures
        order_position(order, deps[c[0]].0@) <= order_position(order, deps[c[k]].0@),
    decreases k,
{
    if k > 0 {
        lemma_cycle_position_chain(deps, order, c, k - 1);
        assert(has_edge_idx(deps, c[k - 1], c[k - 1 + 1]));
    }
}

/// A graph that admits a topological order has no cycle: following any cycle
/// the order's positions would have to rise strictly and still return to
/// their start.
pub proof fn lemma_topo_order_acyclic(deps: Seq<(String, Vec<String>)>, order: Seq<String>)
    requires
        is_topo_order(deps, order),
    ensures
        !has_cycle(deps),
{
    if has_cycle(deps) {
        let c = choose|c: Seq<int>| is_cycle(deps, c);
        lemma_cycle_position_chain(deps, order, c, c.len() - 1);
        assert(has_edge_idx(deps, c[c.len() - 1], c[0]));
    }
}

/// Where node index `i` stands in an index ordering.
pub open spec fn idx_occurs(ord: Seq<usize>, i: int) -> bool {
    exists|p: int| 0 <= p < ord.len() && ord[p] as int == i
}

/// Node index `u` stands somewhere before position `t`.
pub open spec fn idx_before(ord: Seq<usize>, u: int, t: int) -> bool {
    exists|p: int| 0 <= p < t && ord[p] as int == u
}

/// A creation order given as node indices: each node exactly once, and
/// every node's predecessors stand earlier.
pub open spec fn is_index_order(deps: Seq<(String, Vec<String>)>, ord: Seq<usize>) -> bool {
    &&& ord.len() == deps.len()
    &&& forall|t: int| 0 <= t < ord.len() ==> #[trigger] ord[t] < deps.len()
    &&& ord.no_duplicates()
    &&& forall|i: int| 0 <= i < deps.len() ==> idx_occurs(ord, i)
    &&& forall|t: int, u: int|
        0 <= t < ord.len() && #[trigger] has_edge_idx(deps, u, ord[t] as int) ==> idx_before(
            ord,
            u,
            t,
        )
}

/// The creation order of the graph's nodes, by index. Exactly the cyclic
/// graphs are rejected, with `DependencyCycle` naming an account that lies
/// on a cycle.
pub fn creation_order_indices(deps: &Vec<(String, Vec<String>)>) -> (r: Result<
    Vec<usize>,
    ForgeError,
>)
    requires
        wf_graph(deps@),
    ensures
        match r {
            Ok(ord) => is_index_order(deps@, ord@) && !has_cycle(deps@),
            Err(e) => has_cycle(deps@) && (e matches ForgeError::DependencyCycle {
                involved_account,
            } && cycle_through(deps@, involved_account@)),
        },
{
    let n = deps.len();
    let mut placed: Vec<bool> = Vec::new();
    let mut z: usize = 0;
    while z < n
        invariant
            placed@.len() == z <= n,
            forall|t: int| 0 <= t < z ==> !placed@[t],
        decreases n - z,
    {
        placed.push(false);
        z = z + 1;
    }
    proof {
        lemma_count_true_zero(placed@);
    }

    let mut result: Vec<usize> = Vec::new();
    while result.len() < n
        invariant
            n == deps@.len(),
            placed@.len() == n,
            count_true(placed@) == result@.len(),
            forall|t: int| 0 <= t < result@.len() ==> #[trigger] result@[t] < n,
            forall|i: int| 0 <= i < n ==> (placed@[i] <==> result@.contains(i as usize)),
            result@.no_duplicates(),
            forall|t: int, u: int|
                0 <= t < result@.len() && #[trigger] has_edge_idx(deps@, u, result@[t] as int)
                    ==> exists|t2: int| 0 <= t2 < t && result@[t2] as int == u,
        decreases n - result@.len(),
    {
        match find_ready(deps, &placed) {
            Some(c) => {
                let ghost pre_p = placed@;
                let ghost pre_r = result@;
                placed[c] = true;
                result.push(c);
                proof {
                    assert(placed@ =~= pre_p.update(c as int, true));
                    lemma_count_true_update(pre_p, c as int);
                    assert forall|i: int| 0 <= i < n implies (placed@[i] <==> result@.contains(
                        i as usize,
                    )) by {
                        if i == c as int {
                            assert(result@[result@.len() - 1] == c);
                        } else {
                            if pre_p[i] {
                                let t = choose|t: int|
                                    0 <= t < pre_r.len() && pre_r[t] == i as usize;
                                assert(result@[t] == i as usize);
                            } else {
                                if result@.contains(i as usize) {
                                    let t = choose|t: int|
                                        0 <= t < result@.len() && result@[t] == i as usize;
                                    assert(t < pre_r.len());
                                    assert(pre_r[t] == i as usize);
                                }
                            }
                        }
                    }
                    assert(!pre_r.contains(c));
                    assert forall|t: int, u: int|
                        0 <= t < result@.len() && #[trigger] has_edge_idx(
                            deps@,
                            u,
                            result@[t] as int,
                        ) implies exists|t2: int| 0 <= t2 < t && result@[t2] as int == u by {
                        if t < pre_r.len() {
                            assert(has_edge_idx(deps@, u, pre_r[t] as int));
                            let t2 = choose|t2: int| 0 <= t2 < t && pre_r[t2] as int == u;
                            assert(result@[t2] as int == u);
                        } else {
                            assert(result@[t] == c);
                            assert(pre_p[u]);
                            assert(pre_r.contains(u as usize));
                            let t2 = choose|t2: int|
                                0 <= t2 < pre_r.len() && pre_r[t2] == u as usize;
                            assert(result@[t2] as int == u);
                        }
                    }
                }
            },
            None => {
                match find_unplaced(&placed) {
                    Some(start) => {
                        let e = report_cycle(deps, &placed, start);
                        proof {
                            let (cy, k) = choose|cy: Seq<int>, k: int|
                                is_cycle(deps@, cy) && 0 <= k < cy.len() && deps@[cy[k]].0@
                                    == (match e {
                                    ForgeError::DependencyCycle { involved_account } => involved_account@,
                                    _ => Seq::empty(),
                                });
                            assert(is_cycle(deps@, cy));
                        }
                        return Err(e);
                    },
                    None => {
                        proof {
                            lemma_count_true_full(placed@);
                            assert(false);
                        }
                        vstd::pervasive::unreached()
                    },
                }
            },
        }
    }

    proof {
        lemma_count_true_le(placed@);
        assert forall|i: int| 0 <= i < n implies placed@[i] by {
            if !placed@[i] {
                lemma_count_true_lt(placed@, i);
            }
        }
        assert forall|i: int| 0 <= i < deps@.len() implies idx_occurs(result@, i) by {
            assert(placed@[i]);
            assert(result@.contains(i as usize));
            let t = choose|t: int| 0 <= t < result@.len() && result@[t] == i as usize;
            assert(result@[t] as int == i);
        }
        assert forall|t: int, u: int|
            0 <= t < result@.len() && #[trigger] has_edge_idx(
                deps@,
                u,
                result@[t] as int,
            ) implies idx_before(result@, u, t) by {
            let t2 = choose|t2: int| 0 <= t2 < t && result@[t2] as int == u;
            assert(0 <= t2 < t && result@[t2] as int == u);
        }
    }
    proof {
        lemma_index_order_acyclic(deps@, result@);
    }
    Ok(result)
}

/// An index order defeats any cycle: positions along the cycle would rise
/// strictly and still return to their start.
proof fn lemma_index_order_chain(
    deps: Seq<(String, Vec<String>)>,
    ord: Seq<usize>,
    c: Seq<int>,
    k: int,
)
    requires
        is_index_order(deps, ord),
        is_cycle(deps, c),
        0 <= k < c.len(),
    ensures
        idx_pos(ord, c[0]) <= idx_pos(ord, c[k]),
    decreases k,
{
    if k > 0 {
        lemma_index_order_chain(deps, ord, c, k - 1);
        assert(has_edge_idx(deps, c[k - 1], c[k - 1 + 1]));
        lemma_index_edge_pos(deps, ord, c[k - 1], c[k]);
    }
}

/// Where node index `i` stands in the ordering.
pub open spec fn idx_pos(ord: Seq<usize>, i: int) -> int {
    choose|p: int| 0 <= p < ord.len() && ord[p] as int == i
}

proof fn lemma_index_edge_pos(deps: Seq<(String, Vec<String>)>, ord: Seq<usize>, u: int, v: int)
    requires
        is_index_order(deps, ord),
        has_edge_idx(deps, u, v),
    ensures
        0 <= idx_pos(ord, u) < idx_pos(ord, v) < ord.len(),
{
    assert(idx_occurs(ord, u));
    assert(idx_occurs(ord, v));
    let pu = idx_pos(ord, u);
    let pv = idx_pos(ord, v);
    assert(0 <= pu < ord.len() && ord[pu] as int == u);
    assert(0 <= pv < ord.len() && ord[pv] as int == v);
    assert(has_edge_idx(deps, u, ord[pv] as int));
    assert(idx_before(ord, u, pv));
    let p2 = choose|p: int| 0 <= p < pv && ord[p] as int == u;
    assert(p2 == pu);
}

proof fn lemma_index_order_acyclic(deps: Seq<(String, Vec<String>)>, ord: Seq<usize>)
    requires
        is_index_order(deps, ord),
    ensures
        !has_cycle(deps),
{
    if has_cycle(deps) {
        let c = choose|c: Seq<int>| is_cycle(deps, c);
        lemma_index_order_chain(deps, ord, c, c.len() - 1);
        assert(has_edge_idx(deps, c[c.len() - 1], c[0]));
        lemma_index_edge_pos(deps, ord, c[c.len() - 1], c[0]);
    }
}

/// Produces a creation order for the dependency graph: for every edge
/// u -> v (v imports what u exports), u precedes v. The order lists every
/// node exactly once. Exactly the cyclic graphs are rejected, with
/// `DependencyCycle` naming an account that lies on a cycle.
pub fn topological_sort(deps: &Vec<(String, Vec<String>)>) -> (r: Result<
    Vec<String>,
    ForgeError,
>)
    requires
        wf_graph(deps@),
    ensures
        match r {
            Ok(order) => is_topo_order(deps@, order@) && !has_cycle(deps@),
            Err(e) => has_cycle(deps@) && (e matches ForgeError::DependencyCycle {
                involved_account,
            } && cycle_through(deps@, involved_account@)),
        },
{
    let ord = match creation_order_indices(deps) {
        Err(e) => {
            return Err(e);
        },
        Ok(o) => o,
    };
    let n = deps.len();
    let mut order: Vec<String> = Vec::new();
    let mut p: usize = 0;
    while p < n
        invariant
            n == deps@.len(),
            wf_graph(deps@),
            is_index_order(deps@, ord@),
            order@.len() == p <= n,
            forall|q: int| 0 <= q < p ==> order@[q]@ == deps@[ord@[q] as int].0@,
        decreases n - p,
    {
        order.push(deps[ord[p]].0.clone());
        p = p + 1;
    }

    proof {
        // Every key occurs in the order.
        assert forall|i: int| 0 <= i < deps@.len() implies occurs(
            order@,
            #[trigger] deps@[i].0@,
        ) by {
            assert(idx_occurs(ord@, i));
            let t = choose|p2: int| 0 <= p2 < ord@.len() && ord@[p2] as int == i;
            assert(0 <= t < order@.len() && order@[t]@ == deps@[i].0@);
        }
        // An order entry names exactly the node it was copied from.
        assert forall|q: int, i: int|
            0 <= q < n && 0 <= i < n && order@[q]@ == deps@[i].0@ implies ord@[q] as int == i by {
            assert(graph_keys(deps@)[ord@[q] as int] == graph_keys(deps@)[i]);
        }
        // No key occurs twice.
        assert forall|q1: int, q2: int| 0 <= q1 < q2 < n implies order@[q1]@ != order@[q2]@ by {
            if order@[q1]@ == order@[q2]@ {
                assert(ord@[q1] as int == ord@[q2] as int);
            }
        }
        assert(is_permutation_of_keys(deps@, order@));
        // The order respects every edge.
        assert forall|u: int, v: int| #[trigger]
            has_edge_idx(deps@, u, v) implies order_position(order@, deps@[u].0@)
            < order_position(order@, deps@[v].0@) by {
            lemma_index_edge_pos(deps@, ord@, u, v);
            let tu = idx_pos(ord@, u);
            let tv = idx_pos(ord@, v);
            assert(0 <= tu < ord@.len() && ord@[tu] as int == u);
            assert(0 <= tv < ord@.len() && ord@[tv] as int == v);
            let pu = order_position(order@, deps@[u].0@);
            let pv = order_position(order@, deps@[v].0@);
            assert(order@[tu]@ == deps@[u].0@);
            assert(order@[tv]@ == deps@[v].0@);
            assert(0 <= pu < order@.len() && order@[pu]@ == deps@[u].0@);
            assert(0 <= pv < order@.len() && order@[pv]@ == deps@[v].0@);
            assert(ord@[pu] as int == u && ord@[pv] as int == v);
            assert(pu == tu && pv == tv);
        }
        lemma_topo_order_acyclic(deps@, order@);
    }
    Ok(order)
}

/// The `unique_name` of every account, in declaration order.
pub open spec fn account_unique_names(accounts: Seq<AccountConfig>) -> Seq<Seq<char>> {
    accounts.map_values(|a: AccountConfig| a.unique_name@)
}

/// No two accounts share a `unique_name`: the deployment-wide uniqueness
/// invariant.
pub open spec fn distinct_unique_names(accounts: Seq<AccountConfig>) -> bool {
    forall|i: int, k: int|
        0 <= i < k < accounts.len() ==> account_unique_names(accounts)[i]
            != account_unique_names(accounts)[k]
}

/// Some account carries this human label.
pub open spec fn label_resolves(accounts: Seq<AccountConfig>, label: Seq<char>) -> bool {
    exists|k: int| 0 <= k < accounts.len() && accounts[k].name@ == label
}

/// Account `u` is the one a label refers to: the last declared account with
/// that label.
pub open spec fn is_label_target(accounts: Seq<AccountConfig>, label: Seq<char>, u: int) -> bool {
    &&& 0 <= u < accounts.len()
    &&& accounts[u].name@ == label
    &&& forall|k: int| u < k < accounts.len() ==> accounts[k].name@ != label
}

/// Every import of every account names a label that resolves.
pub open spec fn all_imports_resolve(accounts: Seq<AccountConfig>) -> bool {
    forall|v: int, j: int|
        0 <= v < accounts.len() && 0 <= j < accounts[v].imports@.len() ==> label_resolves(
            accounts,
            #[trigger] accounts[v].imports@[j].account@,
        )
}

/// Account `v` imports a subject exported by account `u`: `u` must be
/// created before `v`.
pub open spec fn imports_edge(accounts: Seq<AccountConfig>, u: int, v: int) -> bool {
    &&& 0 <= u < accounts.len()
    &&& 0 <= v < accounts.len()
    &&& exists|j: int|
        0 <= j < accounts[v].imports@.len() && is_label_target(
            accounts,
            accounts[v].imports@[j].account@,
            u,
        )
}

/// The account indices `c` form a cycle of import dependencies.
pub open spec fn import_cycle(accounts: Seq<AccountConfig>, c: Seq<int>) -> bool {
    &&& c.len() >= 1
    &&& forall|k: int| 0 <= k < c.len() ==> 0 <= #[trigger] c[k] < accounts.len()
    &&& forall|k: int| 0 <= k < c.len() - 1 ==> imports_edge(accounts, c[k], #[trigger] c[k + 1])
    &&& imports_edge(accounts, c[c.len() - 1], c[0])
}

pub open spec fn has_import_cycle(accounts: Seq<AccountConfig>) -> bool {
    exists|c: Seq<int>| import_cycle(accounts, c)
}

/// Some import cycle runs through the account with this `unique_name`.
pub open spec fn import_cycle_through(accounts: Seq<AccountConfig>, unique_name: Seq<char>) -> bool {
    exists|c: Seq<int>, k: int|
        import_cycle(accounts, c) && 0 <= k < c.len() && accounts[c[k]].unique_name@ == unique_name
}

/// A safe creation order for the accounts: each `unique_name` once, and for
/// every import dependency the exporter stands before the importer.
pub open spec fn is_creation_order(accounts: Seq<AccountConfig>, order: Seq<String>) -> bool {
    &&& order.len() == accounts.len()
    &&& forall|i: int|
        0 <= i < accounts.len() ==> occurs(order, #[trigger] accounts[i].unique_name@)
    &&& forall|p: int, q: int| 0 <= p < q < order.len() ==> order[p]@ != order[q]@
    &&& forall|u: int, v: int|
        #[trigger] imports_edge(accounts, u, v) ==> order_position(order, accounts[u].unique_name@)
            < order_position(order, accounts[v].unique_name@)
}

/// Rejects a deployment in which two accounts resolved to the same
/// `unique_name`; accepts exactly the deployments where all are distinct.
pub fn validate_unique_names(accounts: &Vec<AccountConfig>) -> (r: Result<(), ForgeError>)
    ensures
        r is Ok <==> distinct_unique_names(accounts@),
        r matches Err(e) ==> e matches ForgeError::DuplicateUniqueName { unique_name } && exists|
            i: int,
            k: int,
        |
            0 <= i < k < accounts@.len() && accounts@[i].unique_name@ == accounts@[k].unique_name@
                && accounts@[k].unique_name@ == unique_name@,
{
    let n = accounts.len();
    let mut i: usize = 0;
    while i < n
        invariant
            i <= n == accounts@.len(),
            forall|i2: int, k2: int|
                0 <= i2 < k2 < accounts@.len() && i2 < i ==> accounts@[i2].unique_name@
                    != accounts@[k2].unique_name@,
        decreases n - i,
    {
        let mut k: usize = i + 1;
        while k < n
            invariant
                i < k <= n == accounts@.len(),
                forall|k2: int|
                    i < k2 < k ==> accounts@[i as int].unique_name@ != accounts@[k2].unique_name@,
            decreases n - k,
        {
            if accounts[i].unique_name == accounts[k].unique_name {
                proof {
                    assert(account_unique_names(accounts@)[i as int] == account_unique_names(
                        accounts@,
                    )[k as int]);
                }
                return Err(ForgeError::DuplicateUniqueName {
                    unique_name: accounts[k].unique_name.clone(),
                });
            }
            k = k + 1;
        }
        i = i + 1;
    }
    Ok(())
}

/// The account a label refers to: the last declared account carrying it.
pub fn find_label_target(accounts: &Vec<AccountConfig>, label: &String) -> (r: Option<usize>)
    ensures
        match r {
            Some(u) => is_label_target(accounts@, label@, u as int),
            None => !label_resolves(accounts@, label@),
        },
{
    let mut k = accounts.len();
    while k > 0
        invariant
            k <= accounts@.len(),
            forall|k2: int| k <= k2 < accounts@.len() ==> accounts@[k2].name@ != label@,
        decreases k,
    {
        k = k - 1;
        if accounts[k].name == *label {
            return Some(k);
        }
    }
    None
}

/// Rejects a deployment in which an import references an undeclared account
/// label; accepts exactly the deployments where every import resolves. This
/// runs before any identity is created.
pub fn validate_imports(accounts: &Vec<AccountConfig>) -> (r: Result<(), ForgeError>)
    ensures
        r is Ok <==> all_imports_resolve(accounts@),
        r matches Err(e) ==> e matches ForgeError::UnknownImportTarget { account, target_name }
            && exists|v: int, j: int|
            0 <= v < accounts@.len() && 0 <= j < accounts@[v].imports@.len()
                && accounts@[v].name@ == account@ && accounts@[v].imports@[j].account@
                == target_name@ && !label_resolves(accounts@, target_name@),
{
    let n = accounts.len();
    let mut v: usize = 0;
    while v < n
        invariant
            v <= n == accounts@.len(),
            forall|v2: int, j2: int|
                0 <= v2 < v && 0 <= j2 < accounts@[v2].imports@.len() ==> label_resolves(
                    accounts@,
                    #[trigger] accounts@[v2].imports@[j2].account@,
                ),
        decreases n - v,
    {
        let imports_len = accounts[v].imports.len();
        let mut j: usize = 0;
        while j < imports_len
            invariant
                v < n == accounts@.len(),
                j <= imports_len == accounts@[v as int].imports@.len(),
                forall|j2: int|
                    0 <= j2 < j ==> label_resolves(
                        accounts@,
                        #[trigger] accounts@[v as int].imports@[j2].account@,
                    ),
            decreases imports_len - j,
        {
            match find_label_target(accounts, &accounts[v].imports[j].account) {
                Some(_) => {},
                None => {
                    return Err(ForgeError::UnknownImportTarget {
                        account: accounts[v].name.clone(),
                        target_name: accounts[v].imports[j].account.clone(),
                    });
                },
            }
            j = j + 1;
        }
        v = v + 1;
    }
    Ok(())
}

/// One graph entry is sound: it names an account that really depends on `u`.
spec fn entry_ok(accounts: Seq<AccountConfig>, u: int, entry: Seq<char>) -> bool {
    exists|v: int|
        0 <= v < accounts.len() && entry == accounts[v].unique_name@ && imports_edge(
            accounts,
            u,
            v,
        )
}

/// The built graph mirrors the accounts exactly: same nodes in the same
/// order, and an edge u -> v precisely when v imports what u exports.
pub open spec fn deps_match(accounts: Seq<AccountConfig>, deps: Seq<(String, Vec<String>)>) -> bool {
    &&& deps.len() == accounts.len()
    &&& forall|i: int| 0 <= i < deps.len() ==> #[trigger] deps[i].0@ == accounts[i].unique_name@
    &&& forall|u: int, v: int|
        #[trigger] has_edge_idx(deps, u, v) <==> imports_edge(accounts, u, v)
}

/// Builds the dependency graph of the accounts: one node per account, an
/// edge from each exporting account to each account importing from it.
#[verifier::rlimit(50)]
pub fn build_dependencies(accounts: &Vec<AccountConfig>) -> (deps: Vec<(String, Vec<String>)>)
    requires
        distinct_unique_names(accounts@),
        all_imports_resolve(accounts@),
    ensures
        deps_match(accounts@, deps@),
        wf_graph(deps@),
{
    let n = accounts.len();
    let mut deps: Vec<(String, Vec<String>)> = Vec::new();
    let mut u: usize = 0;
    while u < n
        invariant
            u <= n == accounts@.len(),
            distinct_unique_names(accounts@),
            all_imports_resolve(accounts@),
            deps@.len() == u,
            forall|i: int| 0 <= i < u ==> #[trigger] deps@[i].0@ == accounts@[i].unique_name@,
            forall|i: int, t: int|
                0 <= i < u && 0 <= t < deps@[i].1@.len() ==> entry_ok(
                    accounts@,
                    i,
                    #[trigger] deps@[i].1@[t]@,
                ),
            forall|i: int, v: int|
                0 <= i < u && #[trigger] imports_edge(accounts@, i, v) ==> occurs(
                    deps@[i].1@,
                    accounts@[v].unique_name@,
                ),
        decreases n - u,
    {
        let mut succs: Vec<String> = Vec::new();
        let mut v: usize = 0;
        while v < n
            invariant
                u < n == accounts@.len(),
                v <= n,
                distinct_unique_names(accounts@),
                all_imports_resolve(accounts@),
                forall|t: int|
                    0 <= t < succs@.len() ==> entry_ok(accounts@, u as int, #[trigger] succs@[t]@),
                forall|v2: int|
                    0 <= v2 < v && #[trigger] imports_edge(accounts@, u as int, v2) ==> occurs(
                        succs@,
                        accounts@[v2].unique_name@,
                    ),
            decreases n - v,
        {
            let imports_len = accounts[v].imports.len();
            let mut j: usize = 0;
            let mut pushed = false;
            while j < imports_len
                invariant
                    u < n == accounts@.len(),
                    v < n,
                    distinct_unique_names(accounts@),
                    all_imports_resolve(accounts@),
                    j <= imports_len == accounts@[v as int].imports@.len(),
                    forall|t: int|
                        0 <= t < succs@.len() ==> entry_ok(
                            accounts@,
                            u as int,
                            #[trigger] succs@[t]@,
                        ),
                    forall|v2: int|
                        0 <= v2 < v && #[trigger] imports_edge(accounts@, u as int, v2)
                            ==> occurs(succs@, accounts@[v2].unique_name@),
                    pushed ==> occurs(succs@, accounts@[v as int].unique_name@),
                    !pushed ==> forall|j2: int|
                        0 <= j2 < j ==> !is_label_target(
                            accounts@,
                            #[trigger] accounts@[v as int].imports@[j2].account@,
                            u as int,
                        ),
                decreases imports_len - j,
            {
                if !pushed {
                    match find_label_target(accounts, &accounts[v].imports[j].account) {
                        Some(t) => {
                            if t == u {
                                let ghost pre = succs@;
                                succs.push(accounts[v].unique_name.clone());
                                pushed = true;
                                proof {
                                    assert(succs@[succs@.len() - 1]@
                                        == accounts@[v as int].unique_name@);
                                    assert(imports_edge(accounts@, u as int, v as int));
                                    assert forall|t2: int| 0 <= t2 < succs@.len() implies entry_ok(
                                        accounts@,
                                        u as int,
                                        #[trigger] succs@[t2]@,
                                    ) by {
                                        if t2 < pre.len() {
                                            assert(succs@[t2] == pre[t2]);
                                            assert(entry_ok(accounts@, u as int, pre[t2]@));
                                        }
                                    }
                                    assert forall|v2: int|
                                        0 <= v2 < v && #[trigger] imports_edge(
                                            accounts@,
                                            u as int,
                                            v2,
                                        ) implies occurs(
                                        succs@,
                                        accounts@[v2].unique_name@,
                                    ) by {
                                        assert(occurs(pre, accounts@[v2].unique_name@));
                                        let t3 = choose|t3: int|
                                            0 <= t3 < pre.len() && pre[t3]@ == accounts@[v2].unique_name@;
                                        assert(succs@[t3]@ == accounts@[v2].unique_name@);
                                    }
                                }
                            }
                        },
                        None => {
                            proof {
                                assert(label_resolves(
                                    accounts@,
                                    accounts@[v as int].imports@[j as int].account@,
                                ));
                                assert(false);
                            }
                        },
                    }
                }
                j = j + 1;
            }
            proof {
                assert forall|v2: int|
                    0 <= v2 < v + 1 && #[trigger] imports_edge(accounts@, u as int, v2) implies
                    occurs(succs@, accounts@[v2].unique_name@) by {
                    if v2 == v as int && !pushed {
                        let j2 = choose|j2: int|
                            0 <= j2 < accounts@[v as int].imports@.len() && is_label_target(
                                accounts@,
                                accounts@[v as int].imports@[j2].account@,
                                u as int,
                            );
                        assert(!is_label_target(
                            accounts@,
                            accounts@[v as int].imports@[j2].account@,
                            u as int,
                        ));
                        assert(false);
                    }
                }
            }
            v = v + 1;
        }
        let ghost pre_deps = deps@;
        deps.push((accounts[u].unique_name.clone(), succs));
        proof {
            assert(deps@[deps@.len() - 1].0@ == accounts@[u as int].unique_name@);
            assert forall|i: int| 0 <= i < u + 1 implies #[trigger] deps@[i].0@
                == accounts@[i].unique_name@ by {
                if i < u {
                    assert(deps@[i] == pre_deps[i]);
                    assert(pre_deps[i].0@ == accounts@[i].unique_name@);
                }
            }
            assert forall|i: int, t: int|
                0 <= i < u + 1 && 0 <= t < deps@[i].1@.len() implies entry_ok(
                accounts@,
                i,
                #[trigger] deps@[i].1@[t]@,
            ) by {
                if i < pre_deps.len() {
                    assert(deps@[i] == pre_deps[i]);
                    assert(entry_ok(accounts@, i, pre_deps[i].1@[t]@));
                }
            }
            assert forall|i: int, v2: int|
                0 <= i < u + 1 && #[trigger] imports_edge(accounts@, i, v2) implies occurs(
                deps@[i].1@,
                accounts@[v2].unique_name@,
            ) by {
                if i < pre_deps.len() {
                    assert(deps@[i] == pre_deps[i]);
                    assert(occurs(pre_deps[i].1@, accounts@[v2].unique_name@));
                }
            }
        }
        u = u + 1;
    }
    proof {
        assert forall|u2: int, v2: int| #[trigger]
            has_edge_idx(deps@, u2, v2) implies imports_edge(accounts@, u2, v2) by {
            let t = choose|t: int|
                0 <= t < deps@[u2].1@.len() && deps@[u2].1@[t]@ == deps@[v2].0@;
            assert(entry_ok(accounts@, u2, deps@[u2].1@[t]@));
            let v3 = choose|v3: int|
                0 <= v3 < accounts@.len() && deps@[u2].1@[t]@ == accounts@[v3].unique_name@
                    && imports_edge(accounts@, u2, v3);
            assert(account_unique_names(accounts@)[v3] == account_unique_names(accounts@)[v2]);
            assert(v3 == v2);
        }
        assert forall|u2: int, v2: int|
            imports_edge(accounts@, u2, v2) implies #[trigger] has_edge_idx(deps@, u2, v2) by {
            assert(occurs(deps@[u2].1@, accounts@[v2].unique_name@));
            let t = choose|t: int|
                0 <= t < deps@[u2].1@.len() && deps@[u2].1@[t]@ == accounts@[v2].unique_name@;
            assert(deps@[u2].1@[t]@ == deps@[v2].0@);
        }
        assert forall|i: int, k: int|
            0 <= i < k < deps@.len() implies graph_keys(deps@)[i] != graph_keys(deps@)[k] by {
            assert(account_unique_names(accounts@)[i] != account_unique_names(accounts@)[k]);
        }
        assert forall|i: int, t: int|
            0 <= i < deps@.len() && 0 <= t < deps@[i].1@.len() implies graph_keys(
            deps@,
        ).contains(#[trigger] deps@[i].1@[t]@) by {
            assert(entry_ok(accounts@, i, deps@[i].1@[t]@));
            let v3 = choose|v3: int|
                0 <= v3 < accounts@.len() && deps@[i].1@[t]@ == accounts@[v3].unique_name@
                    && imports_edge(accounts@, i, v3);
            assert(graph_keys(deps@)[v3] == deps@[i].1@[t]@);
        }
    }
    deps
}

proof fn lemma_cycle_to_import(
    accounts: Seq<AccountConfig>,
    deps: Seq<(String, Vec<String>)>,
    c: Seq<int>,
)
    requires
        deps_match(accounts, deps),
        is_cycle(deps, c),
    ensures
        import_cycle(accounts, c),
{
    assert forall|k: int| 0 <= k < c.len() - 1 implies imports_edge(
        accounts,
        c[k],
        #[trigger] c[k + 1],
    ) by {
        assert(has_edge_idx(deps, c[k], c[k + 1]));
    }
    assert(has_edge_idx(deps, c[c.len() - 1], c[0]));
}

proof fn lemma_import_to_cycle(
    accounts: Seq<AccountConfig>,
    deps: Seq<(String, Vec<String>)>,
    c: Seq<int>,
)
    requires
        deps_match(accounts, deps),
        import_cycle(accounts, c),
    ensures
        is_cycle(deps, c),
{
    assert forall|k: int| 0 <= k < c.len() - 1 implies has_edge_idx(
        deps,
        c[k],
        #[trigger] c[k + 1],
    ) by {
        assert(imports_edge(accounts, c[k], c[k + 1]));
    }
    assert(imports_edge(accounts, c[c.len() - 1], c[0]));
}

/// Resolves the accounts' cross-account import dependencies into a safe
/// creation order. Validation runs first, before anything else would touch
/// an identity issuer: duplicated `unique_name`s and imports from undeclared
/// labels are rejected. A cyclic import graph is rejected with
/// `DependencyCycle` naming an account on a cycle; every acyclic graph
/// resolves to an order in which each exporter precedes its importers.
pub fn resolve_creation_order(accounts: &Vec<AccountConfig>) -> (r: Result<Vec<String>, ForgeError>)
    ensures
        match r {
            Ok(order) => {
                &&& distinct_unique_names(accounts@)
                &&& all_imports_resolve(accounts@)
                &&& is_creation_order(accounts@, order@)
                &&& !has_import_cycle(accounts@)
            },
            Err(e) => match e {
                ForgeError::DuplicateUniqueName { unique_name } => exists|i: int, k: int|
                    0 <= i < k < accounts@.len() && accounts@[i].unique_name@
                        == accounts@[k].unique_name@ && accounts@[k].unique_name@ == unique_name@,
                ForgeError::UnknownImportTarget { account, target_name } => distinct_unique_names(
                    accounts@,
                ) && exists|v: int, j: int|
                    0 <= v < accounts@.len() && 0 <= j < accounts@[v].imports@.len()
                        && accounts@[v].name@ == account@ && accounts@[v].imports@[j].account@
                        == target_name@ && !label_resolves(accounts@, target_name@),
                ForgeError::DependencyCycle { involved_account } => distinct_unique_names(accounts@)
                    && all_imports_resolve(accounts@) && has_import_cycle(accounts@)
                    && import_cycle_through(accounts@, involved_account@),
                _ => false,
            },
        },
{
    match validate_unique_names(accounts) {
        Err(e) => {
            return Err(e);
        },
        Ok(_) => {},
    }
    match validate_imports(accounts) {
        Err(e) => {
            return Err(e);
        },
        Ok(_) => {},
    }
    let deps = build_dependencies(accounts);
    match topological_sort(&deps) {
        Ok(order) => {
            proof {
                assert forall|i: int| 0 <= i < accounts@.len() implies occurs(
                    order@,
                    #[trigger] accounts@[i].unique_name@,
                ) by {
                    assert(occurs(order@, deps@[i].0@));
                }
                assert forall|u: int, v: int| #[trigger]
                    imports_edge(accounts@, u, v) implies order_position(
                    order@,
                    accounts@[u].unique_name@,
                ) < order_position(order@, accounts@[v].unique_name@) by {
                    assert(has_edge_idx(deps@, u, v));
                    assert(deps@[u].0@ == accounts@[u].unique_name@);
                    assert(deps@[v].0@ == accounts@[v].unique_name@);
                }
                if has_import_cycle(accounts@) {
                    let c = choose|c: Seq<int>| import_cycle(accounts@, c);
                    lemma_import_to_cycle(accounts@, deps@, c);
                    assert(has_cycle(deps@));
                }
            }
            Ok(order)
        },
        Err(e) => {
            proof {
                let (c, k) = choose|c: Seq<int>, k: int|
                    is_cycle(deps@, c) && 0 <= k < c.len() && deps@[c[k]].0@ == (match e {
                        ForgeError::DependencyCycle { involved_account } => involved_account@,
                        _ => Seq::empty(),
                    });
                lemma_cycle_to_import(accounts@, deps@, c);
                assert(accounts@[c[k]].unique_name@ == deps@[c[k]].0@);
                assert(import_cycle(accounts@, c));
            }
            Err(e)
        },
    }
}

/// A creation order of the accounts, by index: each account exactly once,
/// every exporter before its importers.
pub open spec fn is_account_index_order(accounts: Seq<AccountConfig>, ord: Seq<usize>) -> bool {
    &&& ord.len() == accounts.len()
    &&& forall|t: int| 0 <= t < ord.len() ==> #[trigger] ord[t] < accounts.len()
    &&& ord.no_duplicates()
    &&& forall|i: int| 0 <= i < accounts.len() ==> idx_occurs(ord, i)
    &&& forall|t: int, u: int|
        0 <= t < ord.len() && #[trigger] imports_edge(accounts, u, ord[t] as int) ==> idx_before(
            ord,
            u,
            t,
        )
}

/// Resolves the accounts' import dependencies into a safe creation order,
/// given by account index. Validation and failure behaviour are those of
/// `resolve_creation_order`.
pub fn resolve_creation_indices(accounts: &Vec<AccountConfig>) -> (r: Result<Vec<usize>, ForgeError>)
    ensures
        match r {
            Ok(ord) => {
                &&& distinct_unique_names(accounts@)
                &&& all_imports_resolve(accounts@)
                &&& is_account_index_order(accounts@, ord@)
                &&& !has_import_cycle(accounts@)
            },
            Err(e) => match e {
                ForgeError::DuplicateUniqueName { unique_name } => exists|i: int, k: int|
                    0 <= i < k < accounts@.len() && accounts@[i].unique_name@
                        == accounts@[k].unique_name@ && accounts@[k].unique_name@ == unique_name@,
                ForgeError::UnknownImportTarget { account, target_name } => distinct_unique_names(
                    accounts@,
                ) && exists|v: int, j: int|
                    0 <= v < accounts@.len() && 0 <= j < accounts@[v].imports@.len()
                        && accounts@[v].name@ == account@ && accounts@[v].imports@[j].account@
                        == target_name@ && !label_resolves(accounts@, target_name@),
                ForgeError::DependencyCycle { involved_account } => distinct_unique_names(accounts@)
                    && all_imports_resolve(accounts@) && has_import_cycle(accounts@)
                    && import_cycle_through(accounts@, involved_account@),
                _ => false,
            },
        },
{
    match validate_unique_names(accounts) {
        Err(e) => {
            return Err(e);
        },
        Ok(_) => {},
    }
    match validate_imports(accounts) {
        Err(e) => {
            return Err(e);
        },
        Ok(_) => {},
    }
    let deps = build_dependencies(accounts);
    match creation_order_indices(&deps) {
        Ok(ord) => {
            proof {
                assert forall|t: int, u: int|
                    0 <= t < ord@.len() && #[trigger] imports_edge(
                        accounts@,
                        u,
                        ord@[t] as int,
                    ) implies idx_before(ord@, u, t) by {
                    assert(has_edge_idx(deps@, u, ord@[t] as int));
                }
                if has_import_cycle(accounts@) {
                    let c = choose|c: Seq<int>| import_cycle(accounts@, c);
                    lemma_import_to_cycle(accounts@, deps@, c);
                    assert(has_cycle(deps@));
                }
            }
            Ok(ord)
        },
        Err(e) => {
            proof {
                let (c, k) = choose|c: Seq<int>, k: int|
                    is_cycle(deps@, c) && 0 <= k < c.len() && deps@[c[k]].0@ == (match e {
                        ForgeError::DependencyCycle { involved_account } => involved_account@,
                        _ => Seq::empty(),
                    });
                lemma_cycle_to_import(accounts@, deps@, c);
                assert(accounts@[c[k]].unique_name@ == deps@[c[k]].0@);
                assert(import_cycle(accounts@, c));
            }
            Err(e)
        },
    }
}

/// Two accounts that import from each other form an import cycle: together
/// with `resolve_creation_order`'s contract (success is owed exactly to
/// acyclic graphs), such a deployment can only be rejected, and with
/// `DependencyCycle`, once its names and imports validate.
pub proof fn lemma_two_cycle_unresolvable(accounts: Seq<AccountConfig>, a: int, b: int)
    requires
        imports_edge(accounts, a, b),
        imports_edge(accounts, b, a),
    ensures
        has_import_cycle(accounts),
        import_cycle_through(accounts, accounts[a].unique_name@),
{
    let c = seq![a, b];
    assert(c[0] == a && c[1] == b && c.len() == 2);
    let k0: int = 0;
    assert(imports_edge(accounts, c[k0], c[k0 + 1]));
    assert(imports_edge(accounts, c[c.len() - 1], c[0]));
    assert(import_cycle(accounts, c));
    assert(accounts[c[0]].unique_name@ == accounts[a].unique_name@);
}

} // verus!
