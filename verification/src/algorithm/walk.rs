//! Walks in a graph and predecessor chains, the vocabulary of the search contracts.
//!
//! A walk from a node `s` is a sequence of steps; each step is the
//! [`Neighbour`] taken from the node reached so far: its target and the cost
//! of the edge.  A search runs either forward (along outbound edges) or
//! backward (along inbound edges).

use vstd::prelude::*;

use super::{Graph, Neighbour};

verus! {

/// The edges a search in the given direction may take from `u`.
pub open spec fn adj<G: Graph>(g: &G, forward: bool, u: usize) -> Seq<Neighbour> {
    if forward {
        g.outbound_spec(u)
    } else {
        g.inbound_spec(u)
    }
}

/// The node a walk from `s` has reached after its first `i` steps.
pub open spec fn node_at(s: usize, w: Seq<Neighbour>, i: int) -> usize {
    if i <= 0 {
        s
    } else {
        w[i - 1].edge_node_idx
    }
}

/// The node a walk from `s` ends at.
pub open spec fn walk_end(s: usize, w: Seq<Neighbour>) -> usize {
    node_at(s, w, w.len() as int)
}

/// Step `i` of the walk is an edge leaving the node reached before it.
pub open spec fn step_ok<G: Graph>(g: &G, forward: bool, s: usize, w: Seq<Neighbour>, i: int) -> bool {
    adj(g, forward, node_at(s, w, i)).contains(w[i])
}

/// Every step of `w` follows an edge of the graph, starting at `s`.
pub open spec fn is_walk<G: Graph>(g: &G, forward: bool, s: usize, w: Seq<Neighbour>) -> bool {
    forall|i: int| 0 <= i < w.len() ==> #[trigger] step_ok(g, forward, s, w, i)
}

/// The sum of the step costs of a walk.
pub open spec fn walk_cost(w: Seq<Neighbour>) -> nat
    decreases w.len(),
{
    if w.len() == 0 {
        0
    } else {
        walk_cost(w.drop_last()) + w.last().cost as nat
    }
}

/// `w` is a walk from `s` to `v`.
pub open spec fn walk_to<G: Graph>(g: &G, forward: bool, s: usize, w: Seq<Neighbour>, v: usize) -> bool {
    is_walk(g, forward, s, w) && walk_end(s, w) == v
}

/// Some walk from `s` to `v` costs exactly `c`.
pub open spec fn reaches<G: Graph>(g: &G, forward: bool, s: usize, v: usize, c: nat) -> bool {
    exists|w: Seq<Neighbour>| #[trigger] walk_to(g, forward, s, w, v) && walk_cost(w) == c
}

/// Some walk leads from `s` to `v`.
pub open spec fn reachable<G: Graph>(g: &G, forward: bool, s: usize, v: usize) -> bool {
    exists|w: Seq<Neighbour>| #[trigger] walk_to(g, forward, s, w, v)
}

/// No walk from `s` to `v` costs less than `c`.
pub open spec fn lower_bound<G: Graph>(g: &G, forward: bool, s: usize, v: usize, c: nat) -> bool {
    forall|w: Seq<Neighbour>| #[trigger] walk_to(g, forward, s, w, v) ==> c <= walk_cost(w)
}

/// `c` is the cost of a cheapest walk from `s` to `v`.
pub open spec fn is_shortest<G: Graph>(g: &G, forward: bool, s: usize, v: usize, c: nat) -> bool {
    reaches(g, forward, s, v, c) && lower_bound(g, forward, s, v, c)
}

/// Every neighbour in `s` is a node below `n` and costs at most `mc`.
pub open spec fn nbrs_bounded(s: Seq<Neighbour>, n: nat, mc: nat) -> bool {
    forall|i: int| 0 <= i < s.len() ==> (#[trigger] s[i]).edge_node_idx < n && s[i].cost <= mc
}

/// The edges of node `u`, in both directions, stay below `n` and cost at most `mc`.
pub open spec fn node_bounded<G: Graph>(g: &G, u: usize, n: nat, mc: nat) -> bool {
    nbrs_bounded(g.outbound_spec(u), n, mc) && nbrs_bounded(g.inbound_spec(u), n, mc)
}

/// The graph has nodes `0..n` and no edge costs more than `mc`, and the cost
/// of `n` such edges still fits in a `usize`.
pub open spec fn bounded<G: Graph>(g: &G, n: nat, mc: nat) -> bool {
    &&& n <= usize::MAX as nat + 1
    &&& n * mc <= usize::MAX as nat
    &&& forall|u: usize| u < n ==> #[trigger] node_bounded(g, u, n, mc)
}

/// Inbound edges are the outbound edges seen from the other end.
pub open spec fn reverse_consistent<G: Graph>(g: &G) -> bool {
    forall|u: usize, v: usize, c: usize|
        #![trigger g.inbound_spec(u).contains(Neighbour { edge_node_idx: v, cost: c })]
        #![trigger g.outbound_spec(v).contains(Neighbour { edge_node_idx: u, cost: c })]
        g.inbound_spec(u).contains(Neighbour { edge_node_idx: v, cost: c })
            <==> g.outbound_spec(v).contains(Neighbour { edge_node_idx: u, cost: c })
}

/// A rank that strictly decreases along every predecessor link: the
/// predecessor relation has no cycle.
pub open spec fn pred_ranked(pred: Map<usize, usize>, rank: Map<usize, nat>) -> bool {
    forall|v: usize|
        #[trigger] pred.contains_key(v) ==> rank.contains_key(v) && rank.contains_key(pred[v])
            && rank[pred[v]] < rank[v]
}

/// `path` is the chain of predecessors from `goal` back to the first node that
/// is `start` or has no predecessor, listed from that node to `goal`.
pub open spec fn is_pred_chain(pred: Map<usize, usize>, start: usize, goal: usize, path: Seq<usize>) -> bool {
    &&& path.len() >= 1
    &&& path.last() == goal
    &&& path[0] == start || !pred.contains_key(path[0])
    &&& forall|i: int| 1 <= i < path.len() ==> #[trigger] pred_link(pred, path, i) && path[i] != start
}

/// Node `i` of `path` has node `i - 1` as its predecessor.
pub open spec fn pred_link(pred: Map<usize, usize>, path: Seq<usize>, i: int) -> bool {
    pred.contains_key(path[i]) && pred[path[i]] == path[i - 1]
}

/// Node `i + 1` of `s` is the successor of node `i`.
pub open spec fn succ_link(succ: Map<usize, usize>, s: Seq<usize>, i: int) -> bool {
    succ.contains_key(s[i]) && s[i + 1] == succ[s[i]]
}

/// `s` is the chain of successors reached from `from` by following `succ`
/// until `goal` or a node without successor, `from` itself excluded.
pub open spec fn is_succ_chain(succ: Map<usize, usize>, from: usize, goal: usize, s: Seq<usize>) -> bool {
    &&& s.len() == 0 <==> !succ.contains_key(from)
    &&& s.len() > 0 ==> s[0] == succ[from]
    &&& forall|i: int| 0 <= i < s.len() - 1 ==> #[trigger] succ_link(succ, s, i) && s[i] != goal
    &&& s.len() > 0 ==> (s.last() == goal || !succ.contains_key(s.last()))
}

/// The nodes a walk from `s` passes through, `s` included.
pub open spec fn walk_nodes(s: usize, w: Seq<Neighbour>) -> Seq<usize> {
    Seq::new(w.len() + 1, |i: int| node_at(s, w, i))
}

/// Extending a walk by an edge leaving its end gives a walk.
pub proof fn lemma_walk_push<G: Graph>(g: &G, forward: bool, s: usize, w: Seq<Neighbour>, nb: Neighbour)
    requires
        is_walk(g, forward, s, w),
        adj(g, forward, walk_end(s, w)).contains(nb),
    ensures
        is_walk(g, forward, s, w.push(nb)),
        walk_end(s, w.push(nb)) == nb.edge_node_idx,
        walk_cost(w.push(nb)) == walk_cost(w) + nb.cost,
        walk_nodes(s, w.push(nb)) == walk_nodes(s, w).push(nb.edge_node_idx),
{
    let w2 = w.push(nb);
    assert forall|i: int| 0 <= i < w2.len() implies #[trigger] step_ok(g, forward, s, w2, i) by {
        if i < w.len() {
            assert(step_ok(g, forward, s, w, i));
            assert(node_at(s, w2, i) == node_at(s, w, i));
        }
    }
    assert(w2.drop_last() =~= w);
    assert(walk_nodes(s, w2) =~= walk_nodes(s, w).push(nb.edge_node_idx));
}

/// A reachable cost gives a reachable cost one edge further.
pub proof fn lemma_reaches_push<G: Graph>(g: &G, forward: bool, s: usize, u: usize, c: nat, nb: Neighbour)
    requires
        reaches(g, forward, s, u, c),
        adj(g, forward, u).contains(nb),
    ensures
        reaches(g, forward, s, nb.edge_node_idx, c + nb.cost as nat),
{
    let w = choose|w: Seq<Neighbour>| #[trigger] walk_to(g, forward, s, w, u) && walk_cost(w) == c;
    lemma_walk_push(g, forward, s, w, nb);
    assert(walk_to(g, forward, s, w.push(nb), nb.edge_node_idx));
}

/// The empty walk stays at its start and costs nothing.
pub proof fn lemma_walk_empty<G: Graph>(g: &G, forward: bool, s: usize)
    ensures
        walk_to(g, forward, s, Seq::<Neighbour>::empty(), s),
        walk_cost(Seq::<Neighbour>::empty()) == 0,
        reaches(g, forward, s, s, 0),
{
    assert(walk_to(g, forward, s, Seq::<Neighbour>::empty(), s));
}

/// The cost of a concatenation is the sum of the costs.
pub proof fn lemma_cost_append(a: Seq<Neighbour>, b: Seq<Neighbour>)
    ensures
        walk_cost(a + b) == walk_cost(a) + walk_cost(b),
    decreases b.len(),
{
    if b.len() == 0 {
        assert(a + b =~= a);
    } else {
        lemma_cost_append(a, b.drop_last());
        assert((a + b).drop_last() =~= a + b.drop_last());
    }
}

/// The first `k` steps of a walk form a walk that ends at the node reached
/// after `k` steps; the remaining steps form a walk from there to the end.
pub proof fn lemma_walk_split<G: Graph>(g: &G, forward: bool, s: usize, w: Seq<Neighbour>, k: int)
    requires
        is_walk(g, forward, s, w),
        0 <= k <= w.len(),
    ensures
        is_walk(g, forward, s, w.take(k)),
        walk_end(s, w.take(k)) == node_at(s, w, k),
        is_walk(g, forward, node_at(s, w, k), w.skip(k)),
        walk_end(node_at(s, w, k), w.skip(k)) == walk_end(s, w),
        walk_cost(w) == walk_cost(w.take(k)) + walk_cost(w.skip(k)),
{
    let p = w.take(k);
    let q = w.skip(k);
    let m = node_at(s, w, k);
    assert forall|i: int| 0 <= i < p.len() implies #[trigger] step_ok(g, forward, s, p, i) by {
        assert(step_ok(g, forward, s, w, i));
        assert(node_at(s, p, i) == node_at(s, w, i));
    }
    assert forall|i: int| 0 <= i < q.len() implies #[trigger] step_ok(g, forward, m, q, i) by {
        assert(step_ok(g, forward, s, w, i + k));
        assert(node_at(m, q, i) == node_at(s, w, i + k));
    }
    assert(w =~= p + q);
    lemma_cost_append(p, q);
}

/// Appending a walk from the end of another gives a walk.
pub proof fn lemma_walk_concat<G: Graph>(g: &G, forward: bool, s: usize, a: Seq<Neighbour>, b: Seq<Neighbour>)
    requires
        is_walk(g, forward, s, a),
        is_walk(g, forward, walk_end(s, a), b),
    ensures
        is_walk(g, forward, s, a + b),
        walk_end(s, a + b) == walk_end(walk_end(s, a), b),
        walk_cost(a + b) == walk_cost(a) + walk_cost(b),
{
    let m = walk_end(s, a);
    let w = a + b;
    assert forall|i: int| 0 <= i < w.len() implies #[trigger] step_ok(g, forward, s, w, i) by {
        if i < a.len() {
            assert(step_ok(g, forward, s, a, i));
            assert(node_at(s, w, i) == node_at(s, a, i));
        } else {
            assert(step_ok(g, forward, m, b, i - a.len()));
            assert(node_at(s, w, i) == node_at(m, b, i - a.len()));
        }
    }
    lemma_cost_append(a, b);
}

/// The nodes of a concatenation are those of the first walk followed by
/// those of the second after its start.
pub proof fn lemma_walk_nodes_concat(s: usize, a: Seq<Neighbour>, b: Seq<Neighbour>)
    ensures
        walk_nodes(s, a + b) == walk_nodes(s, a) + walk_nodes(walk_end(s, a), b).skip(1),
{
    let m = walk_end(s, a);
    let lhs = walk_nodes(s, a + b);
    let rhs = walk_nodes(s, a) + walk_nodes(m, b).skip(1);
    assert forall|i: int| 0 <= i < lhs.len() implies lhs[i] == rhs[i] by {
        if i > a.len() {
            assert(node_at(s, a + b, i) == node_at(m, b, i - a.len()));
        }
    }
    assert(lhs =~= rhs);
}

/// The result of a search from `origin`: distances that are walk costs, with
/// the origin at zero, and an acyclic predecessor map that gives every other
/// node with a distance an edge from a node with a distance, whose cost is
/// the difference of the two distances.
pub open spec fn tree_ok<G: Graph>(
    g: &G,
    forward: bool,
    origin: usize,
    dist: Map<usize, usize>,
    pred: Map<usize, usize>,
) -> bool {
    &&& dist.contains_key(origin)
    &&& dist[origin] == 0
    &&& forall|v: usize| #[trigger]
        dist.contains_key(v) ==> reaches(g, forward, origin, v, dist[v] as nat)
    &&& forall|v: usize| #[trigger] pred.contains_key(v) <==> (dist.contains_key(v) && v != origin)
    &&& forall|v: usize| #[trigger]
        pred.contains_key(v) ==> dist.contains_key(pred[v]) && dist[pred[v]] <= dist[v] && adj(
            g,
            forward,
            pred[v],
        ).contains(Neighbour { edge_node_idx: v, cost: (dist[v] - dist[pred[v]]) as usize })
    &&& exists|rank: Map<usize, nat>| pred_ranked(pred, rank)
}

/// Every walk from `origin` that costs less than `c` ends at a node whose
/// distance is at most its cost.
pub open spec fn covers_below<G: Graph>(g: &G, forward: bool, origin: usize, dist: Map<usize, usize>, c: nat) -> bool {
    forall|v: usize, w: Seq<Neighbour>|
        #[trigger] walk_to(g, forward, origin, w, v) && walk_cost(w) < c ==> dist.contains_key(v)
            && dist[v] <= walk_cost(w)
}

/// Following predecessor links from the origin gives a walk that costs the
/// distance of its end.
pub proof fn lemma_links_walk<G: Graph>(
    g: &G,
    forward: bool,
    origin: usize,
    dist: Map<usize, usize>,
    pred: Map<usize, usize>,
    path: Seq<usize>,
)
    requires
        tree_ok(g, forward, origin, dist, pred),
        path.len() >= 1,
        path[0] == origin,
        forall|i: int| 1 <= i < path.len() ==> #[trigger] pred_link(pred, path, i),
    ensures
        exists|w: Seq<Neighbour>|
            #[trigger] walk_to(g, forward, origin, w, path.last()) && walk_cost(w) == dist[path.last()]
                && walk_nodes(origin, w) == path,
    decreases path.len(),
{
    if path.len() == 1 {
        let w = Seq::<Neighbour>::empty();
        lemma_walk_empty(g, forward, origin);
        assert(walk_nodes(origin, w) =~= path);
        assert(path.last() == origin);
        assert(walk_to(g, forward, origin, w, path.last()));
    } else {
        let p0 = path.drop_last();
        assert forall|i: int| 1 <= i < p0.len() implies #[trigger] pred_link(pred, p0, i) by {
            assert(pred_link(pred, path, i));
        }
        lemma_links_walk(g, forward, origin, dist, pred, p0);
        let w0 = choose|w: Seq<Neighbour>|
            #[trigger] walk_to(g, forward, origin, w, p0.last()) && walk_cost(w) == dist[p0.last()]
                && walk_nodes(origin, w) == p0;
        let last = path.last();
        let prev = p0.last();
        assert(path[path.len() - 2] == prev);
        assert(pred_link(pred, path, path.len() - 1));
        let nb = Neighbour { edge_node_idx: last, cost: (dist[last] - dist[prev]) as usize };
        lemma_walk_push(g, forward, origin, w0, nb);
        assert(walk_nodes(origin, w0.push(nb)) =~= path);
        assert(walk_to(g, forward, origin, w0.push(nb), last));
        assert(walk_cost(w0.push(nb)) == dist[last]);
    }
}

/// A predecessor chain that ends at a node with a distance starts at the
/// origin and is the node sequence of a walk costing that distance.
pub proof fn lemma_chain_walk<G: Graph>(
    g: &G,
    forward: bool,
    origin: usize,
    dist: Map<usize, usize>,
    pred: Map<usize, usize>,
    goal: usize,
    path: Seq<usize>,
)
    requires
        tree_ok(g, forward, origin, dist, pred),
        dist.contains_key(goal),
        is_pred_chain(pred, origin, goal, path),
    ensures
        exists|w: Seq<Neighbour>|
            #[trigger] walk_to(g, forward, origin, w, goal) && walk_cost(w) == dist[goal]
                && walk_nodes(origin, w) == path,
{
    if path.len() > 1 {
        assert(pred_link(pred, path, 1));
        assert(dist.contains_key(path[0]));
    }
    assert forall|i: int| 1 <= i < path.len() implies #[trigger] pred_link(pred, path, i) by {
    }
    assert(path[0] == origin);
    lemma_links_walk(g, forward, origin, dist, pred, path);
}

/// Following the successors of a backward search from `from` gives a forward
/// walk to the backward origin that costs the backward distance of `from`.
pub proof fn lemma_succ_walk<G: Graph>(
    g: &G,
    goal: usize,
    dist: Map<usize, usize>,
    succ: Map<usize, usize>,
    from: usize,
    s: Seq<usize>,
)
    requires
        reverse_consistent(g),
        tree_ok(g, false, goal, dist, succ),
        dist.contains_key(from),
        is_succ_chain(succ, from, goal, s),
    ensures
        exists|w: Seq<Neighbour>|
            #[trigger] walk_to(g, true, from, w, goal) && walk_cost(w) == dist[from] && walk_nodes(from, w)
                == seq![from] + s,
    decreases s.len(),
{
    if s.len() == 0 {
        assert(from == goal);
        let w = Seq::<Neighbour>::empty();
        lemma_walk_empty(g, true, from);
        assert(walk_nodes(from, w) =~= seq![from] + s);
    } else {
        let y = s[0];
        assert(succ.contains_key(from) && succ[from] == y);
        let c = (dist[from] - dist[y]) as usize;
        assert(g.inbound_spec(y).contains(Neighbour { edge_node_idx: from, cost: c }));
        assert(g.outbound_spec(from).contains(Neighbour { edge_node_idx: y, cost: c }));
        let rest = s.skip(1);
        if s.len() > 1 {
            assert(succ_link(succ, s, 0));
        } else {
            assert(s.last() == y);
        }
        assert forall|i: int| 0 <= i < rest.len() - 1 implies #[trigger] succ_link(succ, rest, i) && rest[i] != goal by {
            assert(succ_link(succ, s, i + 1));
            assert(rest[i] == s[i + 1] && rest[i + 1] == s[i + 2]);
        }
        assert(is_succ_chain(succ, y, goal, rest));
        lemma_succ_walk(g, goal, dist, succ, y, rest);
        let w1 = choose|w: Seq<Neighbour>|
            #[trigger] walk_to(g, true, y, w, goal) && walk_cost(w) == dist[y] && walk_nodes(y, w)
                == seq![y] + rest;
        let nb = Neighbour { edge_node_idx: y, cost: c };
        let w0 = seq![nb];
        lemma_walk_push(g, true, from, Seq::<Neighbour>::empty(), nb);
        assert(Seq::<Neighbour>::empty().push(nb) =~= w0);
        lemma_walk_empty(g, true, from);
        lemma_walk_concat(g, true, from, w0, w1);
        lemma_walk_nodes_concat(from, w0, w1);
        assert(walk_nodes(from, w0) =~= seq![from, y]);
        assert(walk_nodes(from, w0 + w1) =~= seq![from] + s);
        assert(walk_to(g, true, from, w0 + w1, goal));
    }
}

/// A walk in a bounded graph from a node below `n` stays below `n`, and each
/// of its steps costs at most `mc`.
pub proof fn lemma_walk_bounded<G: Graph>(g: &G, forward: bool, s: usize, w: Seq<Neighbour>, n: nat, mc: nat)
    requires
        bounded(g, n, mc),
        s < n,
        is_walk(g, forward, s, w),
    ensures
        forall|i: int| 0 <= i <= w.len() ==> #[trigger] node_at(s, w, i) < n,
        walk_cost(w) <= w.len() * mc,
    decreases w.len(),
{
    if w.len() > 0 {
        let k = w.len() - 1;
        lemma_walk_split(g, forward, s, w, k);
        let w0 = w.take(k);
        assert(w0 =~= w.drop_last());
        lemma_walk_bounded(g, forward, s, w0, n, mc);
        let x = node_at(s, w, k);
        assert(node_at(s, w0, k) == x);
        assert(node_bounded(g, x, n, mc));
        assert(step_ok(g, forward, s, w, k));
        let nb = w[k];
        let a = adj(g, forward, x);
        let j = choose|j: int| 0 <= j < a.len() && a[j] == nb;
        if forward {
            assert(nbrs_bounded(g.outbound_spec(x), n, mc));
        } else {
            assert(nbrs_bounded(g.inbound_spec(x), n, mc));
        }
        assert(a[j].edge_node_idx < n && a[j].cost <= mc);
        assert forall|i: int| 0 <= i <= w.len() implies #[trigger] node_at(s, w, i) < n by {
            if i < w.len() {
                assert(node_at(s, w0, i) == node_at(s, w, i));
            }
        }
        let l = w.len() as int;
        assert(walk_cost(w) == walk_cost(w0) + nb.cost);
        assert((l - 1) * mc + mc == l * mc) by (nonlinear_arith);
    }
}

/// In a bounded graph, whatever a walk from a node below `n` reaches, some
/// walk reaches for at most `mc` times `n - 1`.
pub proof fn lemma_cheap_walk<G: Graph>(g: &G, forward: bool, s: usize, w: Seq<Neighbour>, n: nat, mc: nat)
    requires
        bounded(g, n, mc),
        s < n,
        is_walk(g, forward, s, w),
    ensures
        exists|w2: Seq<Neighbour>|
            #[trigger] walk_to(g, forward, s, w2, walk_end(s, w)) && walk_cost(w2) + mc <= n * mc,
    decreases w.len(),
{
    lemma_walk_bounded(g, forward, s, w, n, mc);
    let l = w.len() as int;
    if l < n {
        assert(l * mc + mc <= n * mc) by (nonlinear_arith)
            requires l + 1 <= n;
        assert(walk_to(g, forward, s, w, walk_end(s, w)));
    } else {
        let nodes = walk_nodes(s, w);
        vstd::seq_lib::seq_to_set_is_finite(nodes);
        assert forall|v: usize| #[trigger] nodes.to_set().contains(v) implies v < n by {
            let i = choose|i: int| 0 <= i < nodes.len() && nodes[i] == v;
            assert(node_at(s, w, i) < n);
        }
        crate::algorithm::queue::lemma_indices_len(nodes.to_set(), n);
        if nodes.no_duplicates() {
            nodes.unique_seq_to_set();
            assert(false);
        }
        let (i, j) = choose|i: int, j: int|
            0 <= i < nodes.len() && 0 <= j < nodes.len() && i != j && nodes[i] == nodes[j];
        let a = if i < j { i } else { j };
        let b = if i < j { j } else { i };
        lemma_walk_split(g, forward, s, w, b);
        lemma_walk_split(g, forward, s, w.take(b), a);
        assert(w.take(b).take(a) =~= w.take(a));
        assert(node_at(s, w.take(b), a) == node_at(s, w, a));
        assert(node_at(s, w, a) == nodes[a] && node_at(s, w, b) == nodes[b]);
        let w2 = w.take(a) + w.skip(b);
        lemma_walk_concat(g, forward, s, w.take(a), w.skip(b));
        lemma_cheap_walk(g, forward, s, w2, n, mc);
    }
}

/// The steps of walk `w` from `s`, taken backward from its end.
pub open spec fn reverse_walk(s: usize, w: Seq<Neighbour>) -> Seq<Neighbour> {
    Seq::new(
        w.len(),
        |i: int| Neighbour { edge_node_idx: node_at(s, w, w.len() - 1 - i), cost: w[w.len() - 1 - i].cost },
    )
}

/// Under consistent inbound and outbound edges, a walk read backward is a
/// walk in the other direction with the same cost.
pub proof fn lemma_walk_reverse<G: Graph>(g: &G, forward: bool, s: usize, w: Seq<Neighbour>)
    requires
        reverse_consistent(g),
        is_walk(g, forward, s, w),
    ensures
        walk_to(g, !forward, walk_end(s, w), reverse_walk(s, w), s),
        walk_cost(reverse_walk(s, w)) == walk_cost(w),
    decreases w.len(),
{
    let e = walk_end(s, w);
    let r = reverse_walk(s, w);
    if w.len() == 0 {
        assert(r =~= Seq::<Neighbour>::empty());
    } else {
        let w0 = w.drop_last();
        let m = walk_end(s, w0);
        assert forall|i: int| 0 <= i < w0.len() implies #[trigger] step_ok(g, forward, s, w0, i) by {
            assert(step_ok(g, forward, s, w, i));
            assert(node_at(s, w0, i) == node_at(s, w, i));
        }
        lemma_walk_reverse(g, forward, s, w0);
        let r0 = reverse_walk(s, w0);
        let first = Neighbour { edge_node_idx: m, cost: w.last().cost };
        assert(r =~= seq![first] + r0);
        // The first backward step undoes the last forward step.
        assert(step_ok(g, forward, s, w, w.len() - 1));
        assert(node_at(s, w, w.len() - 1) == m);
        let last = w.last();
        if forward {
            assert(g.outbound_spec(m).contains(Neighbour { edge_node_idx: e, cost: last.cost }));
            assert(g.inbound_spec(e).contains(first));
        } else {
            assert(g.inbound_spec(m).contains(Neighbour { edge_node_idx: e, cost: last.cost }));
            assert(g.outbound_spec(e).contains(first));
        }
        let back = !forward;
        assert forall|i: int| 0 <= i < r.len() implies #[trigger] step_ok(g, back, e, r, i) by {
            if i == 0 {
                assert(node_at(e, r, 0) == e);
            } else {
                assert(step_ok(g, back, m, r0, i - 1));
                assert(node_at(e, r, i) == node_at(m, r0, i - 1));
            }
        }
        assert(walk_end(e, r) == node_at(m, r0, r0.len() as int));
        assert(seq![first].drop_last() =~= Seq::<Neighbour>::empty());
        assert(walk_cost(Seq::<Neighbour>::empty()) == 0);
        assert(seq![first].last() == first);
        assert(walk_cost(seq![first]) == first.cost);
        lemma_cost_append(seq![first], r0);
        assert(walk_cost(w) == walk_cost(w0) + last.cost);
    }
}

} // verus!
