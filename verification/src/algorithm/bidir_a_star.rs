//! Bidirectional A*: forward and backward A* searches that meet in the middle.

use vstd::prelude::*;

use super::a_star::lemma_admissible_walk;
use super::bidir_dijkstra::{
    bidir_result, lemma_meeting_after, lemma_meeting_swap, lemma_unreachable_at_max, meet, meeting_ok,
};
use super::guided::{admissible, entry_on_walk, estimate, estimates_bounded, lemma_guided_frontier, Guided};
use super::queue::{peek_priority, potential};
use super::walk::{
    bounded, is_pred_chain, is_shortest, is_succ_chain, lemma_walk_concat, lemma_walk_nodes_concat,
    lemma_walk_reverse, lower_bound, node_at, pred_link, reachable, reaches, reverse_consistent,
    reverse_walk, walk_cost, walk_nodes, walk_to,
};
use super::{reconstruct_path_bidir, Graph, Neighbour};

verus! {

broadcast use vstd::std_specs::hash::group_hash_axioms;

/// A forward walk to `m` followed by a backward walk from the goal to `m`,
/// read forward, reaches the goal for the sum of the two costs.
proof fn lemma_joined_walk<G: Graph>(g: &G, start: usize, goal: usize, m: usize, cf: nat, cb: nat)
    requires
        reverse_consistent(g),
        reaches(g, true, start, m, cf),
        reaches(g, false, goal, m, cb),
    ensures
        reaches(g, true, start, goal, cf + cb),
{
    let w1 = choose|w: Seq<Neighbour>| #[trigger] walk_to(g, true, start, w, m) && walk_cost(w) == cf;
    let w2 = choose|w: Seq<Neighbour>| #[trigger] walk_to(g, false, goal, w, m) && walk_cost(w) == cb;
    lemma_walk_reverse(g, false, goal, w2);
    let r2 = reverse_walk(goal, w2);
    lemma_walk_concat(g, true, start, w1, r2);
    assert(walk_to(g, true, start, w1 + r2, goal));
}

/// When the loop ends under an admissible heuristic, no walk from the start
/// to the goal costs less than `best`.
proof fn lemma_guided_lower_bound<G: Graph>(fwd: Guided, bwd: Guided, g: &G, n: nat, mc: nat, best: usize)
    requires
        fwd.wf(g, n, mc, None),
        bwd.wf(g, n, mc, None),
        fwd.forward,
        admissible(g, fwd.aim),
        bwd.origin == fwd.aim,
        crate::algorithm::bidir_dijkstra::meeting_ok_sums(fwd.dist@, bwd.dist@, best),
        forall|k: int| 0 <= k < fwd.heap@.len() ==> best <= #[trigger] fwd.heap@[k].priority,
    ensures
        lower_bound(g, true, fwd.origin, fwd.aim, best as nat),
{
    let start = fwd.origin;
    let goal = fwd.aim;
    assert forall|w: Seq<Neighbour>| #[trigger] walk_to(g, true, start, w, goal) implies best <= walk_cost(w) by {
        lemma_admissible_walk(g, start, goal, w);
        lemma_guided_frontier(fwd, g, n, mc, w);
        if exists|j: int, k: int| #[trigger] entry_on_walk(fwd, w, j, k) {
            let (j, k) = choose|j: int, k: int| #[trigger] entry_on_walk(fwd, w, j, k);
            assert(fwd.entry_ok(g, fwd.heap@[k]));
            assert(estimate(g, true, goal, node_at(start, w, j)) is Some);
        } else {
            assert(fwd.dist@.contains_key(goal) && bwd.dist@.contains_key(goal));
        }
    }
}

/// Run bidirectional A* from `start` to `goal` on `graph`.
///
/// Runs a forward A* search from `start` and a backward A* search from `goal`
/// simultaneously, using the graph's heuristic to guide both frontiers.
///
/// The backward search uses `graph.heuristic(node, start)` as its heuristic,
/// which must be admissible for the reverse direction (this holds when the
/// heuristic is a symmetric lower bound such as straight-line distance).
///
/// Returns `Some((path, cost))` where `path` is the sequence of node indices
/// from `start` to `goal` (inclusive) and `cost` is the total true edge cost.
/// Returns `None` if no path exists.
pub fn bidir_a_star<G: Graph>(graph: G, start: usize, goal: usize, construct_path: bool) -> (r: Option<(Vec<usize>, usize)>)
    requires
        exists|n: nat, mc: nat, mh: nat|
            bounded(&graph, n, mc) && start < n && goal < n && estimates_bounded(&graph, true, goal, n, mh)
                && estimates_bounded(&graph, false, start, n, mh) && n * mc + mh <= usize::MAX,
        reverse_consistent(&graph),
    ensures
        start == goal ==> (r matches Some((p, c)) && p@ == seq![start] && c == 0),
        start != goal && graph.heuristic_spec(start, goal) is None ==> r is None,
        start != goal && !reachable(&graph, true, start, goal) ==> r is None,
        start != goal && !construct_path ==> (r matches Some((p, c)) ==> p@.len() == 0 && exists|w: Seq<Neighbour>|
            #[trigger] walk_to(&graph, true, start, w, goal) && walk_cost(w) <= c),
        start != goal && construct_path ==> (r matches Some((p, c)) ==> exists|w: Seq<Neighbour>|
            #[trigger] walk_to(&graph, true, start, w, goal) && walk_cost(w) <= c && walk_nodes(start, w) == p@),
        admissible(&graph, goal) ==> bidir_result(&graph, start, goal, construct_path, r),
{
    if start == goal {
        let mut only = Vec::new();
        only.push(start);
        proof {
            assert(only@ =~= seq![start]);
        }
        return Some((only, 0));
    }
    let initial_cost_estimate = match graph.heuristic(start, goal) {
        Some(h) => h,
        None => {
            proof {
                if admissible(&graph, goal) && reachable(&graph, true, start, goal) {
                    assert(graph.heuristic_spec(start, goal) is Some);
                }
            }
            return None;
        },
    };
    let ghost (n, mc, mh) = choose|n: nat, mc: nat, mh: nat|
        bounded(&graph, n, mc) && start < n && goal < n && estimates_bounded(&graph, true, goal, n, mh)
            && estimates_bounded(&graph, false, start, n, mh) && n * mc + mh <= usize::MAX;
    let mut fwd = Guided::new(&graph, start, goal, true, Some(initial_cost_estimate), Ghost(n), Ghost(mc));
    let goal_estimate = graph.heuristic(goal, start);
    let mut bwd = Guided::new(&graph, goal, start, false, goal_estimate, Ghost(n), Ghost(mc));
    let mut best: usize = usize::MAX;
    let mut meeting: Option<usize> = None;
    loop
        invariant
            bounded(&graph, n, mc),
            estimates_bounded(&graph, true, goal, n, mh),
            estimates_bounded(&graph, false, start, n, mh),
            n * mc + mh <= usize::MAX,
            reverse_consistent(&graph),
            start != goal,
            fwd.wf(&graph, n, mc, None),
            bwd.wf(&graph, n, mc, None),
            fwd.origin == start && fwd.aim == goal && fwd.forward,
            bwd.origin == goal && bwd.aim == start && !bwd.forward,
            meeting_ok(fwd.dist@, bwd.dist@, best, meeting),
        ensures
            forall|k: int| 0 <= k < fwd.heap@.len() ==> best <= #[trigger] fwd.heap@[k].priority,
        decreases potential(fwd.dist@, n) + potential(bwd.dist@, n), fwd.heap@.len() + bwd.heap@.len(),
    {
        let top_f = match peek_priority(&fwd.heap) {
            Some(p) => p,
            None => usize::MAX,
        };
        let top_b = match peek_priority(&bwd.heap) {
            Some(p) => p,
            None => usize::MAX,
        };
        if top_f >= best && top_b >= best {
            break;
        }
        if fwd.heap.len() == 0 && bwd.heap.len() == 0 {
            break;
        }
        if top_f <= top_b {
            if fwd.heap.len() == 0 {
                break;
            }
            let (e, fresh) = fwd.pop(&graph, Ghost(n), Ghost(mc));
            if !fresh {
                continue;
            }
            let ghost f0 = fwd;
            let changes = fwd.relax(&graph, e.position, e.cost, Ghost(n), Ghost(mc), Ghost(mh));
            let ghost best0 = best;
            let ghost meeting0 = meeting;
            meet(&changes, &bwd.dist, &mut best, &mut meeting);
            proof {
                lemma_meeting_after(f0.dist@, fwd.dist@, bwd.dist@, best0, best, meeting0, meeting, changes@);
            }
        } else {
            if bwd.heap.len() == 0 {
                break;
            }
            let (e, fresh) = bwd.pop(&graph, Ghost(n), Ghost(mc));
            if !fresh {
                continue;
            }
            let ghost b0 = bwd;
            let changes = bwd.relax(&graph, e.position, e.cost, Ghost(n), Ghost(mc), Ghost(mh));
            let ghost best0 = best;
            let ghost meeting0 = meeting;
            proof {
                lemma_meeting_swap(fwd.dist@, b0.dist@, best, meeting);
            }
            meet(&changes, &fwd.dist, &mut best, &mut meeting);
            proof {
                lemma_meeting_after(b0.dist@, bwd.dist@, fwd.dist@, best0, best, meeting0, meeting, changes@);
                lemma_meeting_swap(bwd.dist@, fwd.dist@, best, meeting);
            }
        }
    }
    proof {
        if admissible(&graph, goal) {
            lemma_guided_lower_bound(fwd, bwd, &graph, n, mc, best);
        }
    }
    let m = match meeting {
        Some(m) => m,
        None => {
            proof {
                if admissible(&graph, goal) {
                    lemma_unreachable_at_max(&graph, n, mc, start, goal, best);
                }
            }
            return None;
        },
    };
    proof {
        assert(fwd.dist@.contains_key(m) && bwd.dist@.contains_key(m));
        lemma_joined_walk(&graph, start, goal, m, fwd.dist@[m] as nat, bwd.dist@[m] as nat);
        let w = choose|w: Seq<Neighbour>|
            #[trigger] walk_to(&graph, true, start, w, goal) && walk_cost(w) == fwd.dist@[m] + bwd.dist@[m];
        assert(walk_to(&graph, true, start, w, goal));
    }
    let path = if construct_path {
        proof {
            fwd.lemma_ranked(&graph, n, mc, None);
            bwd.lemma_ranked(&graph, n, mc, None);
        }
        let p = reconstruct_path_bidir(&fwd.pred, &bwd.pred, start, m, goal);
        proof {
            let (p1, p2) = choose|p1: Seq<usize>, p2: Seq<usize>|
                is_pred_chain(fwd.pred@, start, m, p1) && is_succ_chain(bwd.pred@, m, goal, p2) && p@ == p1 + p2;
            if p1.len() > 1 {
                assert(pred_link(fwd.pred@, p1, 1));
                assert(fwd.dist@.contains_key(p1[0]));
            }
            assert forall|i: int| 1 <= i < p1.len() implies #[trigger] pred_link(fwd.pred@, p1, i) by {
            }
            fwd.lemma_links_walk(&graph, n, mc, None, p1);
            let w1 = choose|w: Seq<Neighbour>|
                #[trigger] walk_to(&graph, true, start, w, m) && walk_cost(w) <= fwd.dist@[m] && walk_nodes(start, w) == p1;
            bwd.lemma_succ_walk(&graph, n, mc, None, m, p2);
            let w2 = choose|w: Seq<Neighbour>|
                #[trigger] walk_to(&graph, true, m, w, goal) && walk_cost(w) <= bwd.dist@[m] && walk_nodes(m, w)
                    == seq![m] + p2;
            lemma_walk_concat(&graph, true, start, w1, w2);
            lemma_walk_nodes_concat(start, w1, w2);
            assert((seq![m] + p2).skip(1) =~= p2);
            assert(walk_to(&graph, true, start, w1 + w2, goal));
            if admissible(&graph, goal) {
                assert(reaches(&graph, true, start, goal, best as nat));
            }
        }
        p
    } else {
        Vec::new()
    };
    Some((path, best))
}

} // verus!
