//! Shortest-path search on graphs whose nodes are `usize` indices.

pub mod a_star;
pub mod adjacency;
pub mod bidir_a_star;
pub mod bidir_dijkstra;
pub mod dikstra;
pub mod guided;
pub mod queue;
pub mod search;
pub mod walk;

use std::collections::HashMap;
use vstd::prelude::*;

use self::walk::{is_pred_chain, is_succ_chain, pred_link, pred_ranked, succ_link};

verus! {

broadcast use vstd::std_specs::hash::group_hash_axioms;

/// A neighbouring node reachable from the current position, with the cost to traverse to it.
#[derive(Copy, Clone, Debug, PartialEq, Eq, Structural)]
pub struct Neighbour {
    pub edge_node_idx: usize,
    pub cost: usize,
}

/// A directed graph with costed edges, seen from both ends of every edge.
pub trait Graph {
    /// The edges that leave `node`, as (target, cost) pairs.
    spec fn outbound_spec(&self, node: usize) -> Seq<Neighbour>;

    /// The edges that enter `node`, as (source, cost) pairs.
    spec fn inbound_spec(&self, node: usize) -> Seq<Neighbour>;

    /// The estimate of the cost from `from` to `to`.
    spec fn heuristic_spec(&self, from: usize, to: usize) -> Option<usize>;

    fn inbound(&self, node: usize) -> (r: Vec<Neighbour>)
        ensures
            r@ == self.inbound_spec(node),
    ;

    fn outbound(&self, node: usize) -> (r: Vec<Neighbour>)
        ensures
            r@ == self.outbound_spec(node),
    ;

    /// Admissible heuristic: estimated cost from `from` to `to`.
    /// Must never overestimate the true cost (required for A* optimality).
    fn heuristic(&self, from: usize, to: usize) -> (r: Option<usize>)
        ensures
            r == self.heuristic_spec(from, to),
    ;
}

/// Reconstruct a path from a predecessor map produced by a search algorithm.
///
/// Returns the node indices in order from `start` to `goal`: the chain of
/// predecessors from `goal` back to the first node that is `start` or has no
/// predecessor.
pub fn reconstruct_path(predecessors: &HashMap<usize, usize>, start: usize, goal: usize) -> (path: Vec<usize>)
    requires
        exists|rank: Map<usize, nat>| pred_ranked(predecessors@, rank),
    ensures
        walk::is_pred_chain(predecessors@, start, goal, path@),
{
    let ghost rank = choose|rank: Map<usize, nat>| pred_ranked(predecessors@, rank);
    let mut rev: Vec<usize> = Vec::new();
    let mut current = goal;
    loop
        invariant_except_break
            pred_ranked(predecessors@, rank),
            rev@.len() >= 0,
            rev@.len() == 0 ==> current == goal,
            rev@.len() > 0 ==> rev@[0] == goal,
            rev@.len() > 0 ==> predecessors@.contains_key(rev@.last()) && predecessors@[rev@.last()] == current && rev@.last() != start,
            forall|i: int| 0 <= i < rev@.len() - 1 ==> predecessors@.contains_key(#[trigger] rev@[i]) && predecessors@[rev@[i]] == rev@[i + 1] && rev@[i] != start,
        ensures
            rev@.len() >= 1,
            rev@[0] == goal,
            rev@.last() == start || !predecessors@.contains_key(rev@.last()),
            forall|i: int| 0 <= i < rev@.len() - 1 ==> predecessors@.contains_key(#[trigger] rev@[i]) && predecessors@[rev@[i]] == rev@[i + 1] && rev@[i] != start,
        decreases (if rev@.len() == 0 { rank[goal] + 2 } else { rank[rev@.last()] + 1 }),
    {
        let ghost old_rev = rev@;
        rev.push(current);
        if current == start {
            break;
        }
        match predecessors.get(&current) {
            Some(prev) => {
                proof {
                    if old_rev.len() > 0 {
                        assert(rank[current] < rank[old_rev.last()]);
                    }
                }
                current = *prev;
            },
            None => {
                break;
            },
        }
    }
    let mut path: Vec<usize> = Vec::new();
    let n = rev.len();
    let mut k: usize = n;
    while k > 0
        invariant
            k <= n,
            n == rev@.len(),
            path@.len() == n - k,
            forall|i: int| 0 <= i < n - k ==> path@[i] == rev@[n - 1 - i],
        decreases k,
    {
        k = k - 1;
        path.push(rev[k]);
    }
    proof {
        assert forall|i: int| 1 <= i < path@.len() implies #[trigger] pred_link(predecessors@, path@, i) && path@[i] != start by {
            let j = n - 1 - i;
            assert(path@[i] == rev@[j]);
            assert(path@[i - 1] == rev@[j + 1]);
        }
    }
    path
}


/// Reconstruct a path from predecessor maps produced by a bidirectional search.
///
/// Returns the chain of forward predecessors from `start` to `meeting`,
/// followed by the chain of backward predecessors (successors in the forward
/// direction) from `meeting` up to `goal`.
pub fn reconstruct_path_bidir(
    pred_forward: &HashMap<usize, usize>,
    pred_backward: &HashMap<usize, usize>,
    start: usize,
    meeting: usize,
    goal: usize,
) -> (path: Vec<usize>)
    requires
        exists|rank: Map<usize, nat>| pred_ranked(pred_forward@, rank),
        exists|rank: Map<usize, nat>| pred_ranked(pred_backward@, rank),
    ensures
        exists|p1: Seq<usize>, p2: Seq<usize>|
            is_pred_chain(pred_forward@, start, meeting, p1) && is_succ_chain(pred_backward@, meeting, goal, p2)
                && path@ == p1 + p2,
{
    let mut path = reconstruct_path(pred_forward, start, meeting);
    let ghost p1 = path@;
    let ghost rank = choose|rank: Map<usize, nat>| pred_ranked(pred_backward@, rank);
    let mut cur = meeting;
    let ghost mut p2: Seq<usize> = seq![];
    loop
        invariant_except_break
            pred_ranked(pred_backward@, rank),
            path@ == p1 + p2,
            p2.len() == 0 ==> cur == meeting,
            p2.len() > 0 ==> cur == p2.last() && cur != goal,
            p2.len() > 0 ==> p2[0] == pred_backward@[meeting] && pred_backward@.contains_key(meeting),
            forall|i: int| 0 <= i < p2.len() - 1 ==> #[trigger] succ_link(pred_backward@, p2, i) && p2[i] != goal,
        ensures
            path@ == p1 + p2,
            is_succ_chain(pred_backward@, meeting, goal, p2),
        decreases (if p2.len() == 0 { rank[meeting] + 2 } else if rank.contains_key(cur) { rank[cur] + 1 } else { 0 }),
    {
        match pred_backward.get(&cur) {
            Some(next) => {
                proof {
                    assert(rank[*next] < rank[cur]);
                }
                let ghost old_p2 = p2;
                let ghost old_cur = cur;
                cur = *next;
                path.push(cur);
                proof {
                    p2 = p2.push(cur);
                    assert(path@ =~= p1 + p2);
                    assert forall|i: int| 0 <= i < p2.len() - 1 implies #[trigger] succ_link(pred_backward@, p2, i) && p2[i] != goal by {
                        if i < old_p2.len() - 1 {
                            assert(succ_link(pred_backward@, old_p2, i));
                        } else {
                            assert(p2[i] == old_cur);
                        }
                    }
                }
                if cur == goal {
                    break;
                }
            },
            None => {
                break;
            },
        }
    }
    path
}

} // verus!
