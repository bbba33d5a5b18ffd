//! A* search toward one goal, guided by the graph's heuristic.

use vstd::prelude::*;

use super::guided::{admissible, entry_on_walk, estimate, estimates_bounded, lemma_guided_frontier, Guided};
use super::queue::{goes_first, potential};
use super::walk::{
    bounded, is_shortest, lemma_walk_split, lower_bound, node_at, pred_link, reachable, reaches,
    walk_cost, walk_end, walk_nodes, walk_to,
};
use super::{reconstruct_path, Graph, Neighbour};

verus! {

broadcast use vstd::std_specs::hash::group_hash_axioms;

/// Under an admissible heuristic every node of a walk to `goal` has an
/// estimate, no higher than the rest of the walk from that node.
pub proof fn lemma_admissible_walk<G: Graph>(g: &G, start: usize, goal: usize, w: Seq<Neighbour>)
    requires
        admissible(g, goal),
        walk_to(g, true, start, w, goal),
    ensures
        forall|j: int|
            0 <= j <= w.len() ==> ((#[trigger] estimate(g, true, goal, node_at(start, w, j))) matches Some(h)
                && h + walk_cost(w.take(j)) <= walk_cost(w)),
{
    assert forall|j: int| 0 <= j <= w.len() implies ((#[trigger] estimate(g, true, goal, node_at(start, w, j))) matches Some(h)
        && h + walk_cost(w.take(j)) <= walk_cost(w)) by {
        lemma_walk_split(g, true, start, w, j);
        let x = node_at(start, w, j);
        assert(walk_to(g, true, x, w.skip(j), goal));
        assert(reachable(g, true, x, goal));
    }
}

/// The goal entry taken first from an A* queue under an admissible
/// heuristic costs no more than any walk to the goal.
pub proof fn lemma_goal_cost<G: Graph>(s: Guided, g: &G, n: nat, mc: nat, e: crate::algorithm::queue::HeapEntry, w: Seq<Neighbour>)
    requires
        s.wf(g, n, mc, None),
        s.forward,
        admissible(g, s.aim),
        !s.expanded@.contains(s.aim),
        s.entry_ok(g, e),
        e.position == s.aim,
        forall|k: int| 0 <= k < s.heap@.len() ==> goes_first(e, #[trigger] s.heap@[k]),
        walk_to(g, true, s.origin, w, s.aim),
    ensures
        e.cost <= walk_cost(w),
{
    lemma_admissible_walk(g, s.origin, s.aim, w);
    lemma_guided_frontier(s, g, n, mc, w);
    let (j, k) = choose|j: int, k: int| #[trigger] entry_on_walk(s, w, j, k);
    assert(s.entry_ok(g, s.heap@[k]));
    assert(goes_first(e, s.heap@[k]));
    let x = node_at(s.origin, w, j);
    assert(estimate(g, true, s.aim, x) is Some);
}

/// Run A* from `start` to `goal` on `graph`.
///
/// Returns `Some((path, cost))` where `path` is the sequence of node indices
/// from `start` to `goal` (inclusive) and `cost` is the total true edge cost.
/// Returns `None` if no path exists.
pub fn a_star<G: Graph>(graph: G, start: usize, goal: usize, construct_path: bool) -> (r: Option<(Vec<usize>, usize)>)
    requires
        exists|n: nat, mc: nat, mh: nat|
            bounded(&graph, n, mc) && start < n && estimates_bounded(&graph, true, goal, n, mh) && n * mc + mh
                <= usize::MAX,
    ensures
        start == goal ==> (r matches Some((p, c)) && p@ == seq![start] && c == 0),
        start != goal && graph.heuristic_spec(start, goal) is None ==> r is None,
        start != goal ==> (r matches Some((p, c)) ==> reaches(&graph, true, start, goal, c as nat) && (construct_path
            ==> exists|w: Seq<Neighbour>|
            #[trigger] walk_to(&graph, true, start, w, goal) && walk_cost(w) <= c && walk_nodes(start, w) == p@)
            && (!construct_path ==> p@.len() == 0)),
        admissible(&graph, goal) ==> (r is None <==> !reachable(&graph, true, start, goal)),
        admissible(&graph, goal) ==> (r matches Some((p, c)) ==> is_shortest(&graph, true, start, goal, c as nat)),
        admissible(&graph, goal) && construct_path ==> (r matches Some((p, c)) ==> exists|w: Seq<Neighbour>|
            #[trigger] walk_to(&graph, true, start, w, goal) && walk_cost(w) == c && walk_nodes(start, w) == p@),
{
    if start == goal {
        let mut only = Vec::new();
        only.push(start);
        proof {
            assert(only@ =~= seq![start]);
            crate::algorithm::walk::lemma_walk_empty(&graph, true, start);
        }
        return Some((only, 0));
    }
    let initial_cost_estimate = match graph.heuristic(start, goal) {
        Some(h) => h,
        None => {
            proof {
                if admissible(&graph, goal) && reachable(&graph, true, start, goal) {
                    assert(graph.heuristic_spec(start, goal) is Some);
                }
            }
            return None;
        },
    };
    let ghost (n, mc, mh) = choose|n: nat, mc: nat, mh: nat|
        bounded(&graph, n, mc) && start < n && estimates_bounded(&graph, true, goal, n, mh) && n * mc + mh
            <= usize::MAX;
    let mut s = Guided::new(&graph, start, goal, true, Some(initial_cost_estimate), Ghost(n), Ghost(mc));
    while s.heap.len() > 0
        invariant
            bounded(&graph, n, mc),
            estimates_bounded(&graph, true, goal, n, mh),
            n * mc + mh <= usize::MAX,
            start != goal,
            s.wf(&graph, n, mc, None),
            s.origin == start,
            s.aim == goal,
            s.forward,
            !s.expanded@.contains(goal),
            graph.heuristic_spec(start, goal) is Some,
        decreases potential(s.dist@, n), s.heap@.len(),
    {
        let ghost before = s;
        let (e, fresh) = s.pop(&graph, Ghost(n), Ghost(mc));
        if e.position == goal {
            let path = if construct_path {
                proof {
                    s.lemma_ranked(&graph, n, mc, if fresh { Some(goal) } else { None });
                }
                let p = reconstruct_path(&s.pred, start, goal);
                proof {
                    let pending = if fresh { Some(goal) } else { None };
                    if p@.len() > 1 {
                        assert(pred_link(s.pred@, p@, 1));
                        assert(s.dist@.contains_key(p@[0]));
                    }
                    assert forall|i: int| 1 <= i < p@.len() implies #[trigger] pred_link(s.pred@, p@, i) by {
                    }
                    s.lemma_links_walk(&graph, n, mc, pending, p@);
                }
                p
            } else {
                Vec::new()
            };
            proof {
                if admissible(&graph, goal) {
                    assert forall|w: Seq<Neighbour>| #[trigger] walk_to(&graph, true, start, w, goal) implies e.cost <= walk_cost(w) by {
                        lemma_goal_cost(before, &graph, n, mc, e, w);
                    }
                    assert(reaches(&graph, true, start, goal, e.cost as nat));
                    let w = choose|w: Seq<Neighbour>| #[trigger] walk_to(&graph, true, start, w, goal) && walk_cost(w) == e.cost as nat;
                    assert(walk_to(&graph, true, start, w, goal));
                }
            }
            return Some((path, e.cost));
        }
        if !fresh {
            continue;
        }
        s.relax(&graph, e.position, e.cost, Ghost(n), Ghost(mc), Ghost(mh));
    }
    proof {
        if admissible(&graph, goal) && reachable(&graph, true, start, goal) {
            let w = choose|w: Seq<Neighbour>| #[trigger] walk_to(&graph, true, start, w, goal);
            lemma_admissible_walk(&graph, start, goal, w);
            lemma_guided_frontier(s, &graph, n, mc, w);
            if exists|j: int, k: int| #[trigger] entry_on_walk(s, w, j, k) {
                let (j, k) = choose|j: int, k: int| #[trigger] entry_on_walk(s, w, j, k);
            }
        }
    }
    None
}

} // verus!
