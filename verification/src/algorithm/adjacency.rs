//! Graphs held as adjacency lists, and graphs seen through a reference.

use vstd::prelude::*;

use super::walk::reverse_consistent;
use super::{Graph, Neighbour};

verus! {

/// Blanket impl so algorithms can accept `&G` when `G: Graph`.
impl<G: Graph> Graph for &G {
    open spec fn outbound_spec(&self, node: usize) -> Seq<Neighbour> {
        (**self).outbound_spec(node)
    }

    open spec fn inbound_spec(&self, node: usize) -> Seq<Neighbour> {
        (**self).inbound_spec(node)
    }

    open spec fn heuristic_spec(&self, from: usize, to: usize) -> Option<usize> {
        (**self).heuristic_spec(from, to)
    }

    fn inbound(&self, node: usize) -> (r: Vec<Neighbour>) {
        (**self).inbound(node)
    }

    fn outbound(&self, node: usize) -> (r: Vec<Neighbour>) {
        (**self).outbound(node)
    }

    fn heuristic(&self, from: usize, to: usize) -> (r: Option<usize>) {
        (**self).heuristic(from, to)
    }
}

/// The edges `(from, to, cost)` that leave `u`, in order, as neighbours.
pub open spec fn edges_from(edges: Seq<(usize, usize, usize)>, u: usize) -> Seq<Neighbour>
    decreases edges.len(),
{
    if edges.len() == 0 {
        Seq::empty()
    } else {
        let rest = edges_from(edges.drop_last(), u);
        let e = edges.last();
        if e.0 == u {
            rest.push(Neighbour { edge_node_idx: e.1, cost: e.2 })
        } else {
            rest
        }
    }
}

/// The edges `(from, to, cost)` that enter `v`, in order, as neighbours.
pub open spec fn edges_into(edges: Seq<(usize, usize, usize)>, v: usize) -> Seq<Neighbour>
    decreases edges.len(),
{
    if edges.len() == 0 {
        Seq::empty()
    } else {
        let rest = edges_into(edges.drop_last(), v);
        let e = edges.last();
        if e.1 == v {
            rest.push(Neighbour { edge_node_idx: e.0, cost: e.2 })
        } else {
            rest
        }
    }
}

/// An edge leaves `u` toward `v` at cost `c` exactly when it is listed,
/// and then it also enters `v` from `u`.
pub proof fn lemma_edges_listed(edges: Seq<(usize, usize, usize)>, u: usize, v: usize, c: usize)
    ensures
        edges_from(edges, u).contains(Neighbour { edge_node_idx: v, cost: c }) <==> edges.contains((u, v, c)),
        edges_into(edges, v).contains(Neighbour { edge_node_idx: u, cost: c }) <==> edges.contains((u, v, c)),
    decreases edges.len(),
{
    if edges.len() > 0 {
        let e0 = edges.drop_last();
        lemma_edges_listed(e0, u, v, c);
        let nb_out = Neighbour { edge_node_idx: v, cost: c };
        let nb_in = Neighbour { edge_node_idx: u, cost: c };
        assert(edges.contains((u, v, c)) <==> (e0.contains((u, v, c)) || edges.last() == (u, v, c))) by {
            if edges.contains((u, v, c)) {
                let i = choose|i: int| 0 <= i < edges.len() && edges[i] == (u, v, c);
                if i < edges.len() - 1 {
                    assert(e0[i] == (u, v, c));
                }
            }
            if e0.contains((u, v, c)) {
                let i = choose|i: int| 0 <= i < e0.len() && e0[i] == (u, v, c);
                assert(edges[i] == (u, v, c));
            }
        }
        let r = edges_from(e0, u);
        if edges.last().0 == u {
            assert(r.push(Neighbour { edge_node_idx: edges.last().1, cost: edges.last().2 }).contains(nb_out)
                <==> (r.contains(nb_out) || edges.last() == (u, v, c))) by {
                let r2 = r.push(Neighbour { edge_node_idx: edges.last().1, cost: edges.last().2 });
                if r2.contains(nb_out) {
                    let i = choose|i: int| 0 <= i < r2.len() && r2[i] == nb_out;
                    if i < r.len() {
                        assert(r[i] == nb_out);
                    }
                }
                if r.contains(nb_out) {
                    let i = choose|i: int| 0 <= i < r.len() && r[i] == nb_out;
                    assert(r2[i] == nb_out);
                }
                if edges.last() == (u, v, c) {
                    assert(r2[r.len() as int] == nb_out);
                }
            }
        }
        let q = edges_into(e0, v);
        if edges.last().1 == v {
            assert(q.push(Neighbour { edge_node_idx: edges.last().0, cost: edges.last().2 }).contains(nb_in)
                <==> (q.contains(nb_in) || edges.last() == (u, v, c))) by {
                let q2 = q.push(Neighbour { edge_node_idx: edges.last().0, cost: edges.last().2 });
                if q2.contains(nb_in) {
                    let i = choose|i: int| 0 <= i < q2.len() && q2[i] == nb_in;
                    if i < q.len() {
                        assert(q[i] == nb_in);
                    }
                }
                if q.contains(nb_in) {
                    let i = choose|i: int| 0 <= i < q.len() && q[i] == nb_in;
                    assert(q2[i] == nb_in);
                }
                if edges.last() == (u, v, c) {
                    assert(q2[q.len() as int] == nb_in);
                }
            }
        }
    }
}

/// A graph on the nodes `0..n` held as adjacency lists in both directions,
/// with an estimate of zero between any two nodes.
pub struct AdjacencyGraph {
    pub outbound_edges: Vec<Vec<Neighbour>>,
    pub inbound_edges: Vec<Vec<Neighbour>>,
}

impl Graph for AdjacencyGraph {
    open spec fn outbound_spec(&self, node: usize) -> Seq<Neighbour> {
        if node < self.outbound_edges@.len() {
            self.outbound_edges@[node as int]@
        } else {
            Seq::empty()
        }
    }

    open spec fn inbound_spec(&self, node: usize) -> Seq<Neighbour> {
        if node < self.inbound_edges@.len() {
            self.inbound_edges@[node as int]@
        } else {
            Seq::empty()
        }
    }

    open spec fn heuristic_spec(&self, from: usize, to: usize) -> Option<usize> {
        Some(0)
    }

    fn inbound(&self, node: usize) -> (r: Vec<Neighbour>) {
        if node < self.inbound_edges.len() {
            self.inbound_edges[node].clone()
        } else {
            Vec::new()
        }
    }

    fn outbound(&self, node: usize) -> (r: Vec<Neighbour>) {
        if node < self.outbound_edges.len() {
            self.outbound_edges[node].clone()
        } else {
            Vec::new()
        }
    }

    fn heuristic(&self, from: usize, to: usize) -> (r: Option<usize>) {
        Some(0)
    }
}

impl AdjacencyGraph {
    /// The graph on the nodes `0..node_count` with the given edges
    /// `(from, to, cost)`; each node lists its edges in the given order.
    pub fn from_edges(node_count: usize, edges: &Vec<(usize, usize, usize)>) -> (g: AdjacencyGraph)
        requires
            forall|i: int| 0 <= i < edges.len() ==> (#[trigger] edges@[i]).0 < node_count && edges@[i].1 < node_count,
        ensures
            forall|u: usize| #[trigger] g.outbound_spec(u) == (if u < node_count { edges_from(edges@, u) } else { Seq::empty() }),
            forall|u: usize| #[trigger] g.inbound_spec(u) == (if u < node_count { edges_into(edges@, u) } else { Seq::empty() }),
            reverse_consistent(&g),
    {
        let mut outbound_edges: Vec<Vec<Neighbour>> = Vec::new();
        let mut inbound_edges: Vec<Vec<Neighbour>> = Vec::new();
        let mut u: usize = 0;
        while u < node_count
            invariant
                u <= node_count,
                outbound_edges@.len() == u,
                inbound_edges@.len() == u,
                forall|x: int| 0 <= x < u ==> (#[trigger] outbound_edges@[x])@ == edges_from(edges@, x as usize),
                forall|x: int| 0 <= x < u ==> (#[trigger] inbound_edges@[x])@ == edges_into(edges@, x as usize),
            decreases node_count - u,
        {
            let mut out: Vec<Neighbour> = Vec::new();
            let mut inc: Vec<Neighbour> = Vec::new();
            let mut i: usize = 0;
            while i < edges.len()
                invariant
                    i <= edges.len(),
                    out@ == edges_from(edges@.take(i as int), u),
                    inc@ == edges_into(edges@.take(i as int), u),
                decreases edges.len() - i,
            {
                let (a, b, c) = edges[i];
                proof {
                    assert(edges@.take(i as int + 1).drop_last() =~= edges@.take(i as int));
                    assert(edges@.take(i as int + 1).last() == edges@[i as int]);
                }
                if a == u {
                    out.push(Neighbour { edge_node_idx: b, cost: c });
                }
                if b == u {
                    inc.push(Neighbour { edge_node_idx: a, cost: c });
                }
                i = i + 1;
            }
            proof {
                assert(edges@.take(edges@.len() as int) =~= edges@);
            }
            outbound_edges.push(out);
            inbound_edges.push(inc);
            u = u + 1;
        }
        let g = AdjacencyGraph { outbound_edges, inbound_edges };
        proof {
            assert forall|x: usize| #[trigger] g.outbound_spec(x) == (if x < node_count { edges_from(edges@, x) } else { Seq::empty() }) by {
                if x < node_count {
                    assert(outbound_edges@[x as int]@ == edges_from(edges@, x));
                }
            }
            assert forall|x: usize| #[trigger] g.inbound_spec(x) == (if x < node_count { edges_into(edges@, x) } else { Seq::empty() }) by {
                if x < node_count {
                    assert(inbound_edges@[x as int]@ == edges_into(edges@, x));
                }
            }
            assert forall|a: usize, b: usize, c: usize|
                #![trigger g.inbound_spec(a).contains(Neighbour { edge_node_idx: b, cost: c })]
                #![trigger g.outbound_spec(b).contains(Neighbour { edge_node_idx: a, cost: c })]
                g.inbound_spec(a).contains(Neighbour { edge_node_idx: b, cost: c })
                    <==> g.outbound_spec(b).contains(Neighbour { edge_node_idx: a, cost: c }) by {
                lemma_edges_listed(edges@, b, a, c);
                if edges@.contains((b, a, c)) {
                    let i = choose|i: int| 0 <= i < edges.len() && edges@[i] == (b, a, c);
                    assert(edges@[i].0 < node_count && edges@[i].1 < node_count);
                }
            }
        }
        g
    }
}

} // verus!
