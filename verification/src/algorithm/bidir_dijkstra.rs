//! Bidirectional Dijkstra: a forward search from the start and a backward
//! search from the goal that meet in the middle.

use std::collections::HashMap;
use vstd::prelude::*;

use super::queue::{distance_of, lemma_keys_len, peek_priority, potential};
use super::search::{lemma_frontier, Search};
use super::walk::{
    adj, bounded, is_shortest, is_succ_chain, lemma_chain_walk, lemma_cheap_walk, lemma_succ_walk,
    lemma_walk_concat, lemma_walk_nodes_concat, lemma_walk_reverse, lemma_walk_split, node_at,
    node_bounded, reachable, reaches, reverse_consistent, reverse_walk, step_ok, tree_ok, walk_cost,
    walk_end, walk_nodes, walk_to, lower_bound, is_walk,
};
use super::{reconstruct_path_bidir, Graph, Neighbour};

verus! {

broadcast use vstd::std_specs::hash::group_hash_axioms;

/// What a bidirectional search from `start` to `goal` returns: the path
/// `[start]` at no cost when they are equal; otherwise `None` exactly when
/// `goal` cannot be reached, and else the shortest cost, with the nodes of a
/// walk of that cost when `construct_path` asks for them and no nodes
/// otherwise.
pub open spec fn bidir_result<G: Graph>(
    g: &G,
    start: usize,
    goal: usize,
    construct_path: bool,
    r: Option<(Vec<usize>, usize)>,
) -> bool {
    if start == goal {
        r matches Some((p, c)) && p@ == seq![start] && c == 0
    } else {
        match r {
            None => !reachable(g, true, start, goal),
            Some((p, c)) => is_shortest(g, true, start, goal, c as nat) && if construct_path {
                exists|w: Seq<Neighbour>|
                    #[trigger] walk_to(g, true, start, w, goal) && walk_cost(w) == c && walk_nodes(start, w) == p@
            } else {
                p@.len() == 0
            },
        }
    }
}

/// The best meeting found so far: `best` is at most the sum of the two
/// distances of every node both searches reached, and `meeting`, when set,
/// is a node both reached whose sum is at most `best`.
pub open spec fn meeting_ok(df: Map<usize, usize>, db: Map<usize, usize>, best: usize, meeting: Option<usize>) -> bool {
    &&& meeting_ok_sums(df, db, best)
    &&& meeting matches Some(m) ==> df.contains_key(m) && db.contains_key(m) && df[m] + db[m] <= best
    &&& meeting is None ==> best == usize::MAX
}

/// Both queues still hold entries and no pair of them costs less than `best`.
pub open spec fn frontiers_meet(fwd: Search, bwd: Search, best: usize) -> bool {
    forall|k1: int, k2: int|
        #![trigger fwd.heap@[k1], bwd.heap@[k2]]
        0 <= k1 < fwd.heap@.len() && 0 <= k2 < bwd.heap@.len() ==> best <= fwd.heap@[k1].cost
            + bwd.heap@[k2].cost
}

/// Checks each change `(node, distance)` of one search against the other
/// search's distances, in order, and keeps the cheapest meeting.
pub fn meet(changes: &Vec<(usize, usize)>, other: &HashMap<usize, usize>, best: &mut usize, meeting: &mut Option<usize>)
    ensures
        *final(best) <= *old(best),
        *final(best) == *old(best) ==> *final(meeting) == *old(meeting),
        *final(best) != *old(best) ==> exists|j: int|
            0 <= j < changes.len() && *final(meeting) == Some(#[trigger] changes@[j].0) && other@.contains_key(changes@[j].0)
                && *final(best) == changes@[j].1 + other@[changes@[j].0],
        forall|j: int|
            0 <= j < changes.len() && other@.contains_key(#[trigger] changes@[j].0) ==> *final(best) <= changes@[j].1
                + other@[changes@[j].0],
{
    let mut j: usize = 0;
    while j < changes.len()
        invariant
            0 <= j <= changes.len(),
            *best <= *old(best),
            *best == *old(best) ==> *meeting == *old(meeting),
            *best != *old(best) ==> exists|k: int|
                0 <= k < j && *meeting == Some(#[trigger] changes@[k].0) && other@.contains_key(changes@[k].0)
                    && *best == changes@[k].1 + other@[changes@[k].0],
            forall|k: int|
                0 <= k < j && other@.contains_key(#[trigger] changes@[k].0) ==> *best <= changes@[k].1
                    + other@[changes@[k].0],
        decreases changes.len() - j,
    {
        let (v, c) = changes[j];
        match distance_of(other, v) {
            Some(back) => {
                let total = c.saturating_add(back);
                if total < *best {
                    *best = total;
                    *meeting = Some(v);
                }
            },
            None => {},
        }
        j = j + 1;
    }
}

/// Run bidirectional Dijkstra from `start` to `goal` on `graph`.
///
/// Runs a forward search from `start` and a backward search from `goal`
/// simultaneously, meeting in the middle. This typically explores roughly
/// half the nodes of a unidirectional search.
///
/// Returns `Some((path, cost))` where `path` is the sequence of node indices
/// from `start` to `goal` (inclusive) and `cost` is the total edge cost.
/// Returns `None` if no path exists.
pub fn bidir_dijkstra<G: Graph>(graph: G, start: usize, goal: usize, construct_path: bool) -> (r: Option<(Vec<usize>, usize)>)
    requires
        exists|n: nat, mc: nat| bounded(&graph, n, mc) && start < n && goal < n,
        reverse_consistent(&graph),
    ensures
        bidir_result(&graph, start, goal, construct_path, r),
{
    if start == goal {
        let mut only = Vec::new();
        only.push(start);
        proof {
            assert(only@ =~= seq![start]);
        }
        return Some((only, 0));
    }
    let ghost (n, mc) = choose|n: nat, mc: nat| bounded(&graph, n, mc) && start < n && goal < n;
    let mut fwd = Search::new(&graph, start, true, usize::MAX, Ghost(n), Ghost(mc));
    let mut bwd = Search::new(&graph, goal, false, usize::MAX, Ghost(n), Ghost(mc));
    let mut best: usize = usize::MAX;
    let mut meeting: Option<usize> = None;
    loop
        invariant
            bounded(&graph, n, mc),
            reverse_consistent(&graph),
            start != goal,
            fwd.wf(&graph, n, mc, None),
            bwd.wf(&graph, n, mc, None),
            fwd.origin == start && fwd.forward && fwd.limit == usize::MAX,
            bwd.origin == goal && !bwd.forward && bwd.limit == usize::MAX,
            meeting_ok(fwd.dist@, bwd.dist@, best, meeting),
        ensures
            fwd.heap@.len() == 0 || bwd.heap@.len() == 0 || frontiers_meet(fwd, bwd, best),
        decreases potential(fwd.dist@, n) + potential(bwd.dist@, n), fwd.heap@.len() + bwd.heap@.len(),
    {
        let top_f = peek_priority(&fwd.heap);
        let top_b = peek_priority(&bwd.heap);
        let (f, b) = match (top_f, top_b) {
            (Some(f), Some(b)) => (f, b),
            _ => {
                break;
            },
        };
        if f.saturating_add(b) >= best {
            proof {
                assert forall|k1: int, k2: int|
                    #![trigger fwd.heap@[k1], bwd.heap@[k2]]
                    0 <= k1 < fwd.heap@.len() && 0 <= k2 < bwd.heap@.len() implies best <= fwd.heap@[k1].cost
                        + bwd.heap@[k2].cost by {
                    assert(fwd.entry_ok(fwd.heap@[k1]));
                    assert(bwd.entry_ok(bwd.heap@[k2]));
                }
            }
            break;
        }
        if f <= b {
            match fwd.pop(&graph, Ghost(n), Ghost(mc)) {
                None => {},
                Some((u, d)) => {
                    let ghost f0 = fwd;
                    let changes = fwd.relax(&graph, u, d, Ghost(n), Ghost(mc));
                    let ghost best0 = best;
                    let ghost meeting0 = meeting;
                    meet(&changes, &bwd.dist, &mut best, &mut meeting);
                    proof {
                        lemma_meeting_after(f0.dist@, fwd.dist@, bwd.dist@, best0, best, meeting0, meeting, changes@);
                    }
                },
            }
        } else {
            match bwd.pop(&graph, Ghost(n), Ghost(mc)) {
                None => {},
                Some((u, d)) => {
                    let ghost b0 = bwd;
                    let changes = bwd.relax(&graph, u, d, Ghost(n), Ghost(mc));
                    let ghost best0 = best;
                    let ghost meeting0 = meeting;
                    proof {
                        lemma_meeting_swap(fwd.dist@, b0.dist@, best, meeting);
                    }
                    meet(&changes, &fwd.dist, &mut best, &mut meeting);
                    proof {
                        lemma_meeting_after(b0.dist@, bwd.dist@, fwd.dist@, best0, best, meeting0, meeting, changes@);
                        lemma_meeting_swap(bwd.dist@, fwd.dist@, best, meeting);
                    }
                },
            }
        }
    }
    proof {
        lemma_bidir_lower_bound(fwd, bwd, &graph, n, mc, best);
        fwd.lemma_tree(&graph, n, mc, None);
        bwd.lemma_tree(&graph, n, mc, None);
    }
    let m = match meeting {
        Some(m) => m,
        None => {
            proof {
                lemma_unreachable_at_max(&graph, n, mc, start, goal, best);
            }
            return None;
        },
    };
    let path = if construct_path {
        let p = reconstruct_path_bidir(&fwd.pred, &bwd.pred, start, m, goal);
        proof {
            lemma_bidir_path(&graph, fwd, bwd, n, mc, m, best, p@);
        }
        p
    } else {
        proof {
            lemma_meeting_walk(&graph, fwd, bwd, n, mc, m);
        }
        Vec::new()
    };
    Some((path, best))
}

/// The meeting stays valid after one side lowers distances from `d0` to
/// `d1` and checks its changes against the other side's distances.
pub proof fn lemma_meeting_after(
    d0: Map<usize, usize>,
    d1: Map<usize, usize>,
    other: Map<usize, usize>,
    best0: usize,
    best: usize,
    meeting0: Option<usize>,
    meeting: Option<usize>,
    changes: Seq<(usize, usize)>,
)
    requires
        meeting_ok(d0, other, best0, meeting0),
        forall|v: usize| #[trigger] d0.contains_key(v) ==> d1.contains_key(v) && d1[v] <= d0[v],
        forall|v: usize| #[trigger]
            d1.contains_key(v) && (!d0.contains_key(v) || d1[v] != d0[v]) ==> exists|j: int|
                0 <= j < changes.len() && #[trigger] changes[j] == (v, d1[v]),
        forall|j: int| 0 <= j < changes.len() ==> d1.contains_key(#[trigger] changes[j].0) && d1[changes[j].0] <= changes[j].1,
        best <= best0,
        best == best0 ==> meeting == meeting0,
        best != best0 ==> exists|j: int|
            0 <= j < changes.len() && meeting == Some(#[trigger] changes[j].0) && other.contains_key(changes[j].0)
                && best == changes[j].1 + other[changes[j].0],
        forall|j: int|
            0 <= j < changes.len() && other.contains_key(#[trigger] changes[j].0) ==> best <= changes[j].1
                + other[changes[j].0],
    ensures
        meeting_ok(d1, other, best, meeting),
{
    assert forall|v: usize| #[trigger] d1.contains_key(v) && other.contains_key(v) implies best <= d1[v] + other[v] by {
        if !d0.contains_key(v) || d1[v] != d0[v] {
            let j = choose|j: int| 0 <= j < changes.len() && #[trigger] changes[j] == (v, d1[v]);
            assert(other.contains_key(changes[j].0));
        } else {
            assert(d0.contains_key(v) && other.contains_key(v));
        }
    }
    if best != best0 {
        let j = choose|j: int|
            0 <= j < changes.len() && meeting == Some(#[trigger] changes[j].0) && other.contains_key(changes[j].0)
                && best == changes[j].1 + other[changes[j].0];
        assert(d1.contains_key(changes[j].0));
    } else {
        if let Some(m) = meeting {
            assert(d0.contains_key(m));
        }
    }
}

/// The meeting invariant does not depend on which side is named first.
pub proof fn lemma_meeting_swap(a: Map<usize, usize>, b: Map<usize, usize>, best: usize, meeting: Option<usize>)
    requires
        meeting_ok(a, b, best, meeting),
    ensures
        meeting_ok(b, a, best, meeting),
{
    assert forall|v: usize| #[trigger] b.contains_key(v) && a.contains_key(v) implies best <= b[v] + a[v] by {
        assert(a.contains_key(v) && b.contains_key(v));
    }
}

/// Along a walk from the start to the goal cheaper than `best`, every node
/// is settled forward no higher than the cost of the walk up to it, when the
/// two queues cannot meet below `best`.
proof fn lemma_bidir_prefix<G: Graph>(fwd: Search, bwd: Search, g: &G, n: nat, mc: nat, best: usize, w: Seq<Neighbour>, i: int)
    requires
        bounded(g, n, mc),
        reverse_consistent(g),
        fwd.wf(g, n, mc, None),
        bwd.wf(g, n, mc, None),
        fwd.forward && fwd.limit == usize::MAX,
        !bwd.forward && bwd.limit == usize::MAX,
        meeting_ok_sums(fwd.dist@, bwd.dist@, best),
        frontiers_meet(fwd, bwd, best),
        walk_to(g, true, fwd.origin, w, bwd.origin),
        walk_cost(w) < best,
        0 <= i <= w.len(),
    ensures
        fwd.settled@.contains(node_at(fwd.origin, w, i)),
        fwd.dist@[node_at(fwd.origin, w, i)] <= walk_cost(w.take(i)),
    decreases i,
{
    let start = fwd.origin;
    let goal = bwd.origin;
    let x = node_at(start, w, i);
    lemma_walk_split(g, true, start, w, i);
    let p = walk_cost(w.take(i));
    if i == 0 {
        assert(w.take(0) =~= Seq::<Neighbour>::empty());
        assert(x == start);
    } else {
        lemma_bidir_prefix(fwd, bwd, g, n, mc, best, w, i - 1);
        let y = node_at(start, w, i - 1);
        assert(step_ok(g, true, start, w, i - 1));
        let nb = w[i - 1];
        let k = choose|k: int| 0 <= k < adj(g, true, y).len() && adj(g, true, y)[k] == nb;
        assert(fwd.relaxed(g, y, k));
        assert(fwd.dist@.contains_key(y));
        crate::algorithm::walk::lemma_walk_bounded(g, true, start, w, n, mc);
        assert(y < n);
        assert(node_bounded(g, y, n, mc));
        assert(crate::algorithm::search::nbrs_bounded_at(adj(g, true, y), k, n, mc));
        lemma_keys_len(fwd.dist@, n);
        assert(mc * fwd.dist@.dom().len() <= n * mc) by (nonlinear_arith)
            requires fwd.dist@.dom().len() <= n;
        assert(w.take(i).drop_last() =~= w.take(i - 1));
        assert(walk_cost(w.take(i)) == walk_cost(w.take(i - 1)) + nb.cost);
        assert(fwd.dist@.contains_key(x));
    }
    assert(fwd.dist@.contains_key(x) && fwd.dist@[x] <= p);
    let suffix = w.skip(i);
    lemma_walk_reverse(g, true, x, suffix);
    let r = reverse_walk(x, suffix);
    lemma_frontier(bwd, g, n, mc, r);
    if !fwd.settled@.contains(x) {
        assert(fwd.queued(x));
        let k1 = choose|k: int| 0 <= k < fwd.heap@.len() && #[trigger] fwd.heap@[k].position == x && fwd.heap@[k].cost == fwd.dist@[x];
        if bwd.settled@.contains(x) && bwd.dist@[x] <= walk_cost(r) {
            assert(fwd.dist@.contains_key(x) && bwd.dist@.contains_key(x));
        } else {
            let k2 = choose|k: int| 0 <= k < bwd.heap@.len() && #[trigger] bwd.heap@[k].cost <= walk_cost(r);
            assert(best <= fwd.heap@[k1].cost + bwd.heap@[k2].cost);
        }
    }
}

/// The first conjunct of the meeting invariant.
pub open spec fn meeting_ok_sums(df: Map<usize, usize>, db: Map<usize, usize>, best: usize) -> bool {
    forall|v: usize| #[trigger] df.contains_key(v) && db.contains_key(v) ==> best <= df[v] + db[v]
}

/// When the bidirectional loop ends, no walk from the start to the goal
/// costs less than `best`.
proof fn lemma_bidir_lower_bound<G: Graph>(fwd: Search, bwd: Search, g: &G, n: nat, mc: nat, best: usize)
    requires
        bounded(g, n, mc),
        reverse_consistent(g),
        fwd.wf(g, n, mc, None),
        bwd.wf(g, n, mc, None),
        fwd.forward && fwd.limit == usize::MAX,
        !bwd.forward && bwd.limit == usize::MAX,
        meeting_ok_sums(fwd.dist@, bwd.dist@, best),
        fwd.heap@.len() == 0 || bwd.heap@.len() == 0 || frontiers_meet(fwd, bwd, best),
    ensures
        lower_bound(g, true, fwd.origin, bwd.origin, best as nat),
{
    let start = fwd.origin;
    let goal = bwd.origin;
    assert forall|w: Seq<Neighbour>| #[trigger] walk_to(g, true, start, w, goal) implies best <= walk_cost(w) by {
        if walk_cost(w) < best {
            if fwd.heap@.len() == 0 {
                fwd.lemma_done(g, n, mc);
                assert(walk_to(g, true, start, w, goal));
                assert(fwd.dist@.contains_key(goal) && bwd.dist@.contains_key(goal));
            } else if bwd.heap@.len() == 0 {
                lemma_walk_reverse(g, true, start, w);
                bwd.lemma_done(g, n, mc);
                let r = reverse_walk(start, w);
                assert(walk_to(g, false, goal, r, start));
                assert(fwd.dist@.contains_key(start) && bwd.dist@.contains_key(start));
            } else {
                lemma_bidir_prefix(fwd, bwd, g, n, mc, best, w, w.len() as int);
                assert(w.take(w.len() as int) =~= w);
                assert(fwd.dist@.contains_key(goal) && bwd.dist@.contains_key(goal));
            }
        }
    }
}

/// A goal that no walk reaches below `usize::MAX` is not reachable: in a
/// bounded graph every reachable node has a cheaper walk.
pub proof fn lemma_unreachable_at_max<G: Graph>(g: &G, n: nat, mc: nat, start: usize, goal: usize, best: usize)
    requires
        bounded(g, n, mc),
        start < n,
        lower_bound(g, true, start, goal, best as nat),
        best == usize::MAX,
    ensures
        !reachable(g, true, start, goal),
{
    if reachable(g, true, start, goal) {
        let w = choose|w: Seq<Neighbour>| #[trigger] walk_to(g, true, start, w, goal);
        lemma_cheap_walk(g, true, start, w, n, mc);
        let w2 = choose|w2: Seq<Neighbour>| #[trigger] walk_to(g, true, start, w2, walk_end(start, w)) && walk_cost(w2) + mc <= n * mc;
        if mc == 0 {
            assert(n * mc == 0) by (nonlinear_arith) requires mc == 0;
        }
        assert(walk_to(g, true, start, w2, goal));
    }
}

/// The forward walk to a meeting node followed by the backward walk from it
/// reaches the goal for the sum of the two distances.
proof fn lemma_meeting_walk<G: Graph>(g: &G, fwd: Search, bwd: Search, n: nat, mc: nat, m: usize)
    requires
        reverse_consistent(g),
        fwd.wf(g, n, mc, None),
        bwd.wf(g, n, mc, None),
        fwd.forward,
        !bwd.forward,
        fwd.dist@.contains_key(m),
        bwd.dist@.contains_key(m),
    ensures
        reaches(g, true, fwd.origin, bwd.origin, (fwd.dist@[m] + bwd.dist@[m]) as nat),
{
    let start = fwd.origin;
    let goal = bwd.origin;
    assert(reaches(g, true, start, m, fwd.dist@[m] as nat));
    assert(reaches(g, false, goal, m, bwd.dist@[m] as nat));
    let w1 = choose|w: Seq<Neighbour>| #[trigger] walk_to(g, true, start, w, m) && walk_cost(w) == fwd.dist@[m] as nat;
    let w2 = choose|w: Seq<Neighbour>| #[trigger] walk_to(g, false, goal, w, m) && walk_cost(w) == bwd.dist@[m] as nat;
    lemma_walk_reverse(g, false, goal, w2);
    let r2 = reverse_walk(goal, w2);
    lemma_walk_concat(g, true, start, w1, r2);
    assert(walk_to(g, true, start, w1 + r2, goal));
}

/// The path put together from the two predecessor maps is a shortest walk.
proof fn lemma_bidir_path<G: Graph>(g: &G, fwd: Search, bwd: Search, n: nat, mc: nat, m: usize, best: usize, path: Seq<usize>)
    requires
        reverse_consistent(g),
        fwd.wf(g, n, mc, None),
        bwd.wf(g, n, mc, None),
        fwd.forward,
        !bwd.forward,
        tree_ok(g, true, fwd.origin, fwd.dist@, fwd.pred@),
        tree_ok(g, false, bwd.origin, bwd.dist@, bwd.pred@),
        fwd.dist@.contains_key(m),
        bwd.dist@.contains_key(m),
        fwd.dist@[m] + bwd.dist@[m] <= best,
        lower_bound(g, true, fwd.origin, bwd.origin, best as nat),
        exists|p1: Seq<usize>, p2: Seq<usize>|
            crate::algorithm::walk::is_pred_chain(fwd.pred@, fwd.origin, m, p1) && is_succ_chain(bwd.pred@, m, bwd.origin, p2)
                && path == p1 + p2,
    ensures
        is_shortest(g, true, fwd.origin, bwd.origin, best as nat),
        exists|w: Seq<Neighbour>|
            #[trigger] walk_to(g, true, fwd.origin, w, bwd.origin) && walk_cost(w) == best && walk_nodes(fwd.origin, w)
                == path,
{
    let start = fwd.origin;
    let goal = bwd.origin;
    let (p1, p2) = choose|p1: Seq<usize>, p2: Seq<usize>|
        crate::algorithm::walk::is_pred_chain(fwd.pred@, start, m, p1) && is_succ_chain(bwd.pred@, m, goal, p2)
            && path == p1 + p2;
    lemma_chain_walk(g, true, start, fwd.dist@, fwd.pred@, m, p1);
    let w1 = choose|w: Seq<Neighbour>|
        #[trigger] walk_to(g, true, start, w, m) && walk_cost(w) == fwd.dist@[m] && walk_nodes(start, w) == p1;
    lemma_succ_walk(g, goal, bwd.dist@, bwd.pred@, m, p2);
    let w2 = choose|w: Seq<Neighbour>|
        #[trigger] walk_to(g, true, m, w, goal) && walk_cost(w) == bwd.dist@[m] && walk_nodes(m, w) == seq![m] + p2;
    lemma_walk_concat(g, true, start, w1, w2);
    lemma_walk_nodes_concat(start, w1, w2);
    assert((seq![m] + p2).skip(1) =~= p2);
    assert(walk_to(g, true, start, w1 + w2, goal));
}

} // verus!
