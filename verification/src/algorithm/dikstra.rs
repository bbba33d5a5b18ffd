//! Dijkstra's algorithm: with a stop condition, to one goal, within a
//! budget, and to a set of targets.

use std::collections::{HashMap, HashSet};
use vstd::prelude::*;

use super::queue::potential;
use super::search::{lemma_frontier, Search};
use super::walk::{
    bounded, covers_below, is_shortest, lemma_chain_walk, lower_bound, reachable, reaches, tree_ok,
    walk_cost, walk_nodes, walk_to,
};
use super::{reconstruct_path, Graph, Neighbour};

verus! {

broadcast use vstd::std_specs::hash::group_hash_axioms;

/// A search from `start` that ran until its queue was empty: it reached
/// exactly the reachable nodes, each at its shortest distance.
pub open spec fn exhausted<G: Graph>(g: &G, forward: bool, start: usize, dist: Map<usize, usize>) -> bool {
    &&& forall|v: usize| #[trigger] reachable(g, forward, start, v) ==> dist.contains_key(v)
    &&& forall|v: usize| #[trigger]
        dist.contains_key(v) ==> lower_bound(g, forward, start, v, dist[v] as nat)
}

/// A search from `start` that was stopped at `p`: `p` has its shortest
/// distance, every node closer than `p` has its shortest distance, and every
/// node whose distance is below that of `p` was settled before it.
pub open spec fn stopped_at<G: Graph>(g: &G, start: usize, dist: Map<usize, usize>, p: usize) -> bool {
    &&& dist.contains_key(p)
    &&& lower_bound(g, true, start, p, dist[p] as nat)
    &&& covers_below(g, true, start, dist, dist[p] as nat)
}

/// Core Dijkstra loop with a caller-supplied stop condition.
///
/// The `stop` closure is called each time a node is settled (with its optimal
/// cost confirmed).  When it returns `true` the search terminates immediately.
///
/// Returns the settled distances and predecessor map for all visited nodes:
/// every distance returned is the shortest one.
pub fn dijkstra_with_stop_condition<G: Graph, F: Fn(usize) -> bool>(graph: G, start: usize, stop: F) -> (r: (
    HashMap<usize, usize>,
    HashMap<usize, usize>,
))
    requires
        exists|n: nat, mc: nat| bounded(&graph, n, mc) && start < n,
        forall|p: usize| stop.requires((p,)),
    ensures
        tree_ok(&graph, true, start, r.0@, r.1@),
        forall|v: usize| #[trigger] r.0@.contains_key(v) ==> lower_bound(&graph, true, start, v, r.0@[v] as nat),
        (exhausted(&graph, true, start, r.0@) && forall|v: usize| #[trigger]
            r.0@.contains_key(v) ==> call_ensures(stop, (v,), false)) || exists|p: usize|
            #[trigger] stopped_at(&graph, start, r.0@, p) && call_ensures(stop, (p,), true) && forall|
                v: usize,
            | #[trigger] r.0@.contains_key(v) && v != p ==> call_ensures(stop, (v,), false),
{
    let ghost (n, mc) = choose|n: nat, mc: nat| bounded(&graph, n, mc) && start < n;
    let mut s = Search::new(&graph, start, true, usize::MAX, Ghost(n), Ghost(mc));
    let ghost mut stopped: Option<usize> = None;
    let mut order: Vec<usize> = Vec::new();
    let mut halted = false;
    proof {
        assert forall|v: usize| s.settled@.contains(v) <==> order@.contains(v) by {}
    }
    loop
        invariant_except_break
            s.wf(&graph, n, mc, None),
            stopped is None,
            !halted,
        invariant
            bounded(&graph, n, mc),
            s.origin == start,
            s.forward,
            s.limit == usize::MAX,
            forall|p: usize| stop.requires((p,)),
            forall|v: usize| #[trigger]
                s.settled@.contains(v) && stopped != Some(v) ==> call_ensures(stop, (v,), false),
            forall|v: usize| s.settled@.contains(v) <==> #[trigger] order@.contains(v),
        ensures
            tree_ok(&graph, true, start, s.dist@, s.pred@),
            halted == (stopped is Some),
            stopped is None ==> s.wf(&graph, n, mc, None) && s.heap@.len() == 0,
            stopped matches Some(p) ==> s.wf(&graph, n, mc, Some(p)) && stopped_at(&graph, start, s.dist@, p)
                && call_ensures(stop, (p,), true)
                && forall|v: usize| #[trigger] s.dist@.contains_key(v) && s.dist@[v] < s.dist@[p] ==> s.settled@.contains(v) && v != p,
        decreases potential(s.dist@, n), s.heap@.len(),
    {
        if s.heap.len() == 0 {
            proof {
                s.lemma_tree(&graph, n, mc, None);
            }
            break;
        }
        let ghost before = s;
        let ghost order0 = order@;
        match s.pop(&graph, Ghost(n), Ghost(mc)) {
            None => {},
            Some((u, d)) => {
                order.push(u);
                proof {
                    assert(s.settled@ == before.settled@.insert(u));
                    assert forall|v: usize| s.settled@.contains(v) <==> #[trigger] order@.contains(v) by {
                        assert(before.settled@.contains(v) <==> order0.contains(v));
                        if v == u {
                            assert(order@[order0.len() as int] == u);
                        } else {
                            if order@.contains(v) {
                                let j = choose|j: int| 0 <= j < order@.len() && order@[j] == v;
                                assert(j < order0.len());
                                assert(order0[j] == v);
                                assert(order0.contains(v));
                            }
                            if order0.contains(v) {
                                let j = choose|j: int| 0 <= j < order0.len() && order0[j] == v;
                                assert(order@[j] == v);
                            }
                        }
                    }
                }
                if stop(u) {
                    halted = true;
                    proof {
                        stopped = Some(u);
                        s.lemma_tree(&graph, n, mc, Some(u));
                        assert forall|v: usize, w: Seq<Neighbour>|
                            #[trigger] walk_to(&graph, true, start, w, v) && walk_cost(w) < s.dist@[u] implies s.dist@.contains_key(v) && s.dist@[v] <= walk_cost(w) by {
                            lemma_frontier(before, &graph, n, mc, w);
                            if !before.settled@.contains(v) {
                                let k = choose|k: int| 0 <= k < before.heap@.len() && #[trigger] before.heap@[k].cost <= walk_cost(w);
                                assert(before.entry_ok(before.heap@[k]));
                            }
                        }
                        assert forall|v: usize| #[trigger] s.dist@.contains_key(v) && s.dist@[v] < s.dist@[u] implies s.settled@.contains(v) && v != u by {
                            if !before.settled@.contains(v) {
                                assert(before.queued(v));
                                let k = choose|k: int| 0 <= k < before.heap@.len() && #[trigger] before.heap@[k].position == v && before.heap@[k].cost == before.dist@[v];
                                assert(before.entry_ok(before.heap@[k]));
                            }
                        }
                    }
                    break;
                }
                s.relax(&graph, u, d, Ghost(n), Ghost(mc));
            },
        }
    }
    if !halted {
        proof {
            s.lemma_done(&graph, n, mc);
            assert forall|v: usize| #[trigger] reachable(&graph, true, start, v) implies s.dist@.contains_key(v) by {
                let w = choose|w: Seq<Neighbour>| #[trigger] walk_to(&graph, true, start, w, v);
                assert(walk_to(&graph, true, start, w, v));
            }
            assert forall|v: usize| #[trigger] s.dist@.contains_key(v) implies lower_bound(&graph, true, start, v, s.dist@[v] as nat) && call_ensures(stop, (v,), false) by {
                assert(s.settled@.contains(v));
            }
        }
        return (s.dist, s.pred);
    }
    let ghost p = stopped->0;
    proof {
        s.lemma_origin_settled(&graph, n, mc, Some(p), p);
    }
    let mut d2: HashMap<usize, usize> = HashMap::new();
    let mut p2: HashMap<usize, usize> = HashMap::new();
    let mut i: usize = 0;
    while i < order.len()
        invariant
            i <= order@.len(),
            s.wf(&graph, n, mc, Some(p)),
            forall|v: usize| s.settled@.contains(v) <==> #[trigger] order@.contains(v),
            forall|v: usize| #[trigger] d2@.contains_key(v) <==> exists|j: int| 0 <= j < i && order@[j] == v,
            forall|v: usize| #[trigger] d2@.contains_key(v) ==> d2@[v] == s.dist@[v],
            forall|v: usize| #[trigger] p2@.contains_key(v) <==> d2@.contains_key(v) && s.pred@.contains_key(v),
            forall|v: usize| #[trigger] p2@.contains_key(v) ==> p2@[v] == s.pred@[v],
        decreases order.len() - i,
    {
        let v = order[i];
        proof {
            assert(order@.contains(v));
            assert(s.dist@.contains_key(v));
        }
        let dv = match s.dist.get(&v) {
            Some(x) => *x,
            None => 0,
        };
        d2.insert(v, dv);
        match s.pred.get(&v) {
            Some(u) => {
                p2.insert(v, *u);
            },
            None => {},
        }
        proof {
            assert forall|x: usize| #[trigger] d2@.contains_key(x) <==> exists|j: int| 0 <= j < i + 1 && order@[j] == x by {
                if x == v {
                    assert(order@[i as int] == x);
                } else if exists|j: int| 0 <= j < i + 1 && order@[j] == x {
                    let j = choose|j: int| 0 <= j < i + 1 && order@[j] == x;
                    assert(j < i);
                }
            }
        }
        i = i + 1;
    }
    proof {
        assert forall|v: usize| #[trigger] d2@.contains_key(v) <==> s.settled@.contains(v) by {
            if s.settled@.contains(v) {
                assert(order@.contains(v));
                let j = choose|j: int| 0 <= j < order@.len() && order@[j] == v;
                assert(exists|j: int| 0 <= j < i && order@[j] == v);
            }
            if d2@.contains_key(v) {
                let j = choose|j: int| 0 <= j < i && order@[j] == v;
                assert(order@.contains(v));
            }
        }
        assert(d2@.contains_key(start));
        assert(d2@.contains_key(p));
        assert forall|v: usize| #[trigger] d2@.contains_key(v) implies reaches(&graph, true, start, v, d2@[v] as nat) by {
            assert(s.dist@.contains_key(v));
        }
        assert forall|v: usize| #[trigger] p2@.contains_key(v) <==> (d2@.contains_key(v) && v != start) by {
            if d2@.contains_key(v) {
                assert(s.dist@.contains_key(v));
            }
        }
        assert forall|v: usize| #[trigger] p2@.contains_key(v) implies d2@.contains_key(p2@[v]) && d2@[p2@[v]] <= d2@[v]
            && crate::algorithm::walk::adj(&graph, true, p2@[v]).contains(
            Neighbour { edge_node_idx: v, cost: (d2@[v] - d2@[p2@[v]]) as usize },
        ) by {
            assert(s.pred@.contains_key(v));
            assert(s.settled@.contains(s.pred@[v]));
        }
        let rank = choose|rank: Map<usize, nat>| crate::algorithm::walk::pred_ranked(s.pred@, rank);
        assert(crate::algorithm::walk::pred_ranked(p2@, rank));
        assert(tree_ok(&graph, true, start, d2@, p2@));
        assert(d2@[p] == s.dist@[p]);
        assert forall|v: usize, w: Seq<Neighbour>|
            #[trigger] walk_to(&graph, true, start, w, v) && walk_cost(w) < d2@[p] implies d2@.contains_key(v) && d2@[v] <= walk_cost(w) by {
            assert(covers_below(&graph, true, start, s.dist@, s.dist@[p] as nat));
            assert(s.dist@.contains_key(v) && s.dist@[v] <= walk_cost(w));
            assert(s.settled@.contains(v));
        }
        assert(stopped_at(&graph, start, d2@, p));
        assert forall|v: usize| #[trigger] d2@.contains_key(v) implies lower_bound(&graph, true, start, v, d2@[v] as nat) by {
            assert(s.settled@.contains(v));
        }
    }
    (d2, p2)
}

/// Run Dijkstra's algorithm from `start` to `goal` on `graph`.
///
/// Returns `Some((path, cost))` where `path` is the sequence of node indices
/// from `start` to `goal` (inclusive) and `cost` is the total edge cost.
/// Returns `None` if no path exists.
pub fn dikstra<G: Graph>(graph: G, start: usize, goal: usize) -> (r: Option<(Vec<usize>, usize)>)
    requires
        exists|n: nat, mc: nat| bounded(&graph, n, mc) && start < n,
    ensures
        r is None <==> !reachable(&graph, true, start, goal),
        r matches Some((path, cost)) ==> is_shortest(&graph, true, start, goal, cost as nat) && exists|w: Seq<Neighbour>|
            #[trigger] walk_to(&graph, true, start, w, goal) && walk_cost(w) == cost && walk_nodes(start, w)
                == path@,
{
    let ghost g = graph;
    let stop = |pos: usize| -> (b: bool)
        ensures
            b == (pos == goal),
        { pos == goal };
    let (dist, predecessors) = dijkstra_with_stop_condition(graph, start, stop);
    proof {
        if !exhausted(&g, true, start, dist@) {
            let p = choose|p: usize|
                #[trigger] stopped_at(&g, start, dist@, p) && call_ensures(stop, (p,), true) && forall|v: usize|
                    #[trigger] dist@.contains_key(v) && dist@[v] < dist@[p] ==> call_ensures(stop, (v,), false);
            assert(p == goal);
        }
        if dist@.contains_key(goal) {
            assert(reaches(&g, true, start, goal, dist@[goal] as nat));
        }
    }
    let cost = match dist.get(&goal) {
        Some(c) => *c,
        None => {
            return None;
        },
    };
    let path = reconstruct_path(&predecessors, start, goal);
    proof {
        lemma_chain_walk(&g, true, start, dist@, predecessors@, goal, path@);
    }
    Some((path, cost))
}

/// Some walk from `start` to `v` costs at most `budget`.
pub open spec fn within_budget<G: Graph>(g: &G, start: usize, v: usize, budget: usize) -> bool {
    exists|w: Seq<Neighbour>| #[trigger] walk_to(g, true, start, w, v) && walk_cost(w) <= budget
}

/// Run Dijkstra from `start`, exploring only nodes reachable within `budget`
/// cost units.  Returns the settled distance map for all such nodes.
///
/// Since the heap is a min-heap, the first settled node whose cost exceeds
/// `budget` means all remaining entries also exceed it, so the search
/// terminates early.  Edges whose total cost would exceed the budget are
/// also pruned from the heap to keep it small.
pub fn dijkstra_within_budget<G: Graph>(graph: G, start: usize, budget: usize) -> (dist: HashMap<usize, usize>)
    requires
        exists|n: nat, mc: nat| bounded(&graph, n, mc) && start < n,
    ensures
        forall|v: usize| #[trigger] dist@.contains_key(v) <==> within_budget(&graph, start, v, budget),
        forall|v: usize| #[trigger]
            dist@.contains_key(v) ==> is_shortest(&graph, true, start, v, dist@[v] as nat),
{
    let ghost (n, mc) = choose|n: nat, mc: nat| bounded(&graph, n, mc) && start < n;
    let mut s = Search::new(&graph, start, true, budget, Ghost(n), Ghost(mc));
    while s.heap.len() > 0
        invariant
            bounded(&graph, n, mc),
            s.wf(&graph, n, mc, None),
            s.origin == start,
            s.forward,
            s.limit == budget,
        ensures
            s.wf(&graph, n, mc, None),
            s.heap@.len() == 0,
        decreases potential(s.dist@, n), s.heap@.len(),
    {
        match s.pop(&graph, Ghost(n), Ghost(mc)) {
            None => {},
            Some((u, d)) => {
                if d > budget {
                    break;
                }
                s.relax(&graph, u, d, Ghost(n), Ghost(mc));
            },
        }
    }
    proof {
        s.lemma_done(&graph, n, mc);
        assert forall|v: usize| #[trigger] s.dist@.contains_key(v) implies within_budget(&graph, start, v, budget) && is_shortest(&graph, true, start, v, s.dist@[v] as nat) by {
            assert(s.settled@.contains(v));
            assert(reaches(&graph, true, start, v, s.dist@[v] as nat));
            let w = choose|w: Seq<Neighbour>| #[trigger] walk_to(&graph, true, start, w, v) && walk_cost(w) == s.dist@[v] as nat;
            assert(walk_to(&graph, true, start, w, v));
        }
        assert forall|v: usize| #[trigger] within_budget(&graph, start, v, budget) implies s.dist@.contains_key(v) by {
            let w = choose|w: Seq<Neighbour>| #[trigger] walk_to(&graph, true, start, w, v) && walk_cost(w) <= budget;
            assert(walk_to(&graph, true, start, w, v));
        }
    }
    s.dist
}

/// Run single-source, multi-target Dijkstra from `start` on `graph`.
///
/// Explores outbound edges until all `targets` are settled (or the graph is
/// exhausted).  Returns the settled cost for every reachable node and the
/// predecessor map needed for path reconstruction.
pub fn dijkstra_ssmt<G: Graph>(graph: G, start: usize, targets: &HashSet<usize>) -> (r: (
    HashMap<usize, usize>,
    HashMap<usize, usize>,
))
    requires
        exists|n: nat, mc: nat| bounded(&graph, n, mc) && start < n,
        targets@.finite(),
    ensures
        targets@.is_empty() ==> r.0@ == Map::<usize, usize>::empty() && r.1@ == Map::<usize, usize>::empty(),
        !targets@.is_empty() ==> tree_ok(&graph, true, start, r.0@, r.1@),
        !targets@.is_empty() ==> forall|t: usize| #[trigger]
            targets@.contains(t) ==> (r.0@.contains_key(t) <==> reachable(&graph, true, start, t)) && (r.0@.contains_key(t)
                ==> lower_bound(&graph, true, start, t, r.0@[t] as nat)),
{
    if targets.is_empty() {
        return (HashMap::new(), HashMap::new());
    }
    let ghost (n, mc) = choose|n: nat, mc: nat| bounded(&graph, n, mc) && start < n;
    let mut remaining = targets.len();
    let mut s = Search::new(&graph, start, true, usize::MAX, Ghost(n), Ghost(mc));
    let ghost mut found: Set<usize> = Set::empty();
    proof {
        assert(targets@.intersect(s.settled@) =~= found);
    }
    loop
        invariant_except_break
            s.wf(&graph, n, mc, None),
            remaining > 0,
        invariant
            bounded(&graph, n, mc),
            s.origin == start,
            s.forward,
            s.limit == usize::MAX,
            targets@.finite(),
            found == targets@.intersect(s.settled@),
            remaining + found.len() == targets@.len(),
        ensures
            tree_ok(&graph, true, start, s.dist@, s.pred@),
            remaining > 0 ==> s.wf(&graph, n, mc, None) && s.heap@.len() == 0,
            remaining == 0 ==> forall|v: usize| #[trigger] s.settled@.contains(v) ==> lower_bound(&graph, true, start, v, s.dist@[v] as nat) && s.dist@.contains_key(v),
        decreases potential(s.dist@, n), s.heap@.len(),
    {
        if s.heap.len() == 0 {
            proof {
                s.lemma_tree(&graph, n, mc, None);
            }
            break;
        }
        match s.pop(&graph, Ghost(n), Ghost(mc)) {
            None => {},
            Some((u, d)) => {
                let ghost old_found = found;
                proof {
                    found = targets@.intersect(s.settled@);
                    vstd::set_lib::lemma_len_subset(old_found, targets@);
                }
                if targets.contains(&u) {
                    proof {
                        assert(found =~= old_found.insert(u));
                        assert(!old_found.contains(u));
                        vstd::set_lib::lemma_len_subset(found, targets@);
                    }
                    remaining = remaining - 1;
                    if remaining == 0 {
                        proof {
                            s.lemma_tree(&graph, n, mc, Some(u));
                        }
                        break;
                    }
                } else {
                    proof {
                        assert(found =~= old_found);
                    }
                }
                s.relax(&graph, u, d, Ghost(n), Ghost(mc));
            },
        }
    }
    proof {
        if remaining == 0 {
            vstd::set_lib::lemma_len_subset(found, targets@);
            assert forall|t: usize| #[trigger] targets@.contains(t) implies s.settled@.contains(t) by {
                if !found.contains(t) {
                    vstd::set_lib::lemma_len_subset(found, targets@.remove(t));
                }
            }
        } else {
            s.lemma_done(&graph, n, mc);
        }
        assert forall|t: usize| #[trigger] targets@.contains(t) implies (s.dist@.contains_key(t) <==> reachable(&graph, true, start, t)) && (s.dist@.contains_key(t)
            ==> lower_bound(&graph, true, start, t, s.dist@[t] as nat)) by {
            if s.dist@.contains_key(t) {
                assert(reaches(&graph, true, start, t, s.dist@[t] as nat));
                let w = choose|w: Seq<Neighbour>| #[trigger] walk_to(&graph, true, start, w, t) && walk_cost(w) == s.dist@[t] as nat;
                assert(walk_to(&graph, true, start, w, t));
            }
            if reachable(&graph, true, start, t) {
                let w = choose|w: Seq<Neighbour>| #[trigger] walk_to(&graph, true, start, w, t);
                assert(walk_to(&graph, true, start, w, t));
            }
        }
    }
    (s.dist, s.pred)
}

} // verus!
