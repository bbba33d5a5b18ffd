//! The road graph that searches run on: edge nodes joined by turns, each
//! edge node listing the turns that leave it and the turns that enter it.

use vstd::prelude::*;

use crate::algorithm::Neighbour;
use crate::service::cost::{costs_fit, CostModel};
use crate::storage::edge_node::EdgeNode;
use crate::storage::turn_edge::TurnEdge;
use crate::storage::way::Way;

verus! {

/// Edge nodes, the turns between them and the ways they belong to, searched
/// under a cost model.
pub struct RoadGraph<'a, C> {
    pub edge_nodes: &'a [EdgeNode],
    pub turn_edges: &'a [TurnEdge],
    pub ways: &'a [Way],
    pub cost_model: C,
}

/// The turn that follows `te` in the list being walked: the next outbound turn
/// of its from-edge-node, or in `reverse` the next inbound turn of its
/// to-edge-node.
pub open spec fn next_turn(te: TurnEdge, reverse: bool) -> usize {
    if reverse {
        te.next_inbound as usize
    } else {
        te.next_outbound as usize
    }
}

/// The edge node a turn leads to: its to-edge-node, or in `reverse` its
/// from-edge-node.
pub open spec fn turn_target(te: TurnEdge, reverse: bool) -> usize {
    if reverse {
        te.from_edge_node_idx as usize
    } else {
        te.to_edge_node_idx as usize
    }
}

impl<'a, C: CostModel> RoadGraph<'a, C> {
    /// The neighbour that a turn leads to, costing the turn plus the traversal
    /// of the neighbour's whole edge node; `None` when the turn is forbidden,
    /// the neighbour or its way is missing, or its way is blocked.
    pub open spec fn turn_neighbour(self, te: TurnEdge, reverse: bool) -> Option<Neighbour> {
        let idx = turn_target(te, reverse);
        if self.cost_model.turn_spec(te) is None || idx >= self.edge_nodes@.len() {
            None
        } else {
            let en = self.edge_nodes@[idx as int];
            let wi = en.way_idx as usize;
            if wi >= self.ways@.len() {
                None
            } else {
                match self.cost_model.traversal_spec(en.dist_m as usize, en, self.ways@[wi as int]) {
                    Some(d) => Some(
                        Neighbour { edge_node_idx: idx, cost: (self.cost_model.turn_spec(te)->0 + d) as usize },
                    ),
                    None => None,
                }
            }
        }
    }

    /// The neighbours along the list of turns starting at `cur`, following at
    /// most `steps` links; the list ends at an index past the last turn.
    pub open spec fn turn_list(self, cur: usize, steps: nat, reverse: bool) -> Seq<Neighbour>
        decreases steps,
    {
        if steps == 0 || cur >= self.turn_edges@.len() {
            Seq::empty()
        } else {
            let te = self.turn_edges@[cur as int];
            let rest = self.turn_list(next_turn(te, reverse), (steps - 1) as nat, reverse);
            match self.turn_neighbour(te, reverse) {
                Some(n) => seq![n] + rest,
                None => rest,
            }
        }
    }

    /// The first turn of an edge node's list: outbound, or in `reverse`
    /// inbound; past every turn when the edge node does not exist.
    pub open spec fn first_turn(self, node: usize, reverse: bool) -> usize {
        if node >= self.edge_nodes@.len() {
            usize::MAX
        } else if reverse {
            self.edge_nodes@[node as int].first_inbound_turn as usize
        } else {
            self.edge_nodes@[node as int].first_outbound_turn as usize
        }
    }

    /// The neighbours reached by the turns leaving `node`, in list order.
    pub open spec fn outbound_spec(self, node: usize) -> Seq<Neighbour> {
        self.turn_list(self.first_turn(node, false), self.turn_edges@.len(), false)
    }

    /// The neighbours that the turns entering `node` come from, in list order.
    pub open spec fn inbound_spec(self, node: usize) -> Seq<Neighbour> {
        self.turn_list(self.first_turn(node, true), self.turn_edges@.len(), true)
    }

    /// The neighbour behind one turn, as the spec describes it.
    fn neighbour_of(&self, te: &TurnEdge, reverse: bool) -> (r: Option<Neighbour>)
        requires
            costs_fit(self.cost_model),
        ensures
            r == self.turn_neighbour(*te, reverse),
    {
        let turn = match self.cost_model.turn_cost(te) {
            Some(t) => t,
            None => {
                return None;
            },
        };
        let idx = if reverse {
            te.from_edge_node_idx()
        } else {
            te.to_edge_node_idx()
        };
        if idx >= self.edge_nodes.len() {
            return None;
        }
        let en = &self.edge_nodes[idx];
        let wi = en.way_idx();
        if wi >= self.ways.len() {
            return None;
        }
        let way = &self.ways[wi];
        match self.cost_model.traversal_cost(en.dist_m as usize, en, way) {
            Some(d) => {
                proof {
                    assert(self.cost_model.turn_spec(*te) is Some);
                    assert(self.cost_model.traversal_spec(en.dist_m as usize, *en, *way) is Some);
                }
                Some(Neighbour { edge_node_idx: idx, cost: turn + d })
            },
            None => None,
        }
    }

    /// Walks the list of turns from `first`, one link per turn at most: a
    /// list that came back to a turn already passed would otherwise be walked
    /// forever.
    fn walk(&self, first: usize, reverse: bool) -> (r: Vec<Neighbour>)
        requires
            costs_fit(self.cost_model),
        ensures
            r@ == self.turn_list(first, self.turn_edges@.len(), reverse),
    {
        let mut out: Vec<Neighbour> = Vec::new();
        let mut cur = first;
        let mut steps: usize = self.turn_edges.len();
        while steps > 0 && cur < self.turn_edges.len()
            invariant
                costs_fit(self.cost_model),
                steps <= self.turn_edges@.len(),
                out@ + self.turn_list(cur, steps as nat, reverse) == self.turn_list(
                    first,
                    self.turn_edges@.len(),
                    reverse,
                ),
            decreases steps,
        {
            let te = &self.turn_edges[cur];
            let next = if reverse {
                te.next_inbound_idx()
            } else {
                te.next_outbound_idx()
            };
            let ghost old_out = out@;
            match self.neighbour_of(te, reverse) {
                Some(n) => {
                    out.push(n);
                    proof {
                        assert(old_out + (seq![n] + self.turn_list(next, (steps - 1) as nat, reverse)) =~= out@
                            + self.turn_list(next, (steps - 1) as nat, reverse));
                    }
                },
                None => {},
            }
            cur = next;
            steps = steps - 1;
        }
        proof {
            assert(self.turn_list(cur, steps as nat, reverse) =~= Seq::<Neighbour>::empty());
            assert(out@ =~= out@ + Seq::<Neighbour>::empty());
        }
        out
    }

    /// The neighbours reached by the turns leaving `node`: each costs its
    /// turn plus the traversal of its whole edge node. Forbidden turns and
    /// blocked or missing edges are skipped.
    pub fn outbound(&self, node: usize) -> (r: Vec<Neighbour>)
        requires
            costs_fit(self.cost_model),
        ensures
            r@ == self.outbound_spec(node),
    {
        let first = if node < self.edge_nodes.len() {
            self.edge_nodes[node].first_outbound_turn_idx()
        } else {
            usize::MAX
        };
        self.walk(first, false)
    }

    /// The neighbours that the turns entering `node` come from: each costs
    /// its turn plus the traversal of its own whole edge node. Forbidden turns
    /// and blocked or missing edges are skipped.
    pub fn inbound(&self, node: usize) -> (r: Vec<Neighbour>)
        requires
            costs_fit(self.cost_model),
        ensures
            r@ == self.inbound_spec(node),
    {
        let first = if node < self.edge_nodes.len() {
            self.edge_nodes[node].first_inbound_turn_idx()
        } else {
            usize::MAX
        };
        self.walk(first, true)
    }
}

} // verus!
