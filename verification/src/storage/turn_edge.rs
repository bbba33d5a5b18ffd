//! Turns between directed road segments.

use vstd::prelude::*;

use crate::storage::header::{SimpleHeader, TableData, TablePod, Versioned};

use crate::storage::access::AccessFlags;
use crate::storage::attrib::TurnFlags;
use crate::storage::edge_node::{EdgeNode, NO_TURN};

verus! {

/// A legal turn between two [`EdgeNode`](crate::storage::edge_node::EdgeNode)s
/// at a shared intersection node.
///
/// Each `TurnEdge` participates in two linked lists simultaneously:
/// - the outbound list of `from_edge_node_idx` (forward search)
/// - the inbound list of `to_edge_node_idx` (backward search)
#[derive(Copy, Clone, Debug, PartialEq, Eq, Structural)]
pub struct TurnEdge {
    /// Source edge node (X in X to Y).
    pub from_edge_node_idx: u64,
    /// Destination edge node (Y in X to Y).
    pub to_edge_node_idx: u64,
    /// Signed turn angle in degrees: negative = left, positive = right, 180 = U-turn.
    pub turn_angle: i16,
    /// Vehicles prohibited by an OSM restriction (0 = unrestricted).
    pub restriction_mask: AccessFlags,
    /// Flags derived from the via-node (traffic signals, toll booth).
    pub turn_flags: TurnFlags,
    /// Next entry in the from-node's outbound list.
    pub next_outbound: u64,
    /// Next entry in the to-node's inbound list.
    pub next_inbound: u64,
}

impl TurnEdge {
    /// A turn that is linked into no list yet.
    pub fn new(
        from_edge_node_idx: u64,
        to_edge_node_idx: u64,
        turn_angle: i16,
        restriction_mask: AccessFlags,
        turn_flags: TurnFlags,
    ) -> (r: Self)
        ensures
            r.from_edge_node_idx == from_edge_node_idx,
            r.to_edge_node_idx == to_edge_node_idx,
            r.turn_angle == turn_angle,
            r.restriction_mask == restriction_mask,
            r.turn_flags == turn_flags,
            r.next_outbound == NO_TURN,
            r.next_inbound == NO_TURN,
    {
        TurnEdge {
            from_edge_node_idx,
            to_edge_node_idx,
            turn_angle,
            restriction_mask,
            turn_flags,
            next_outbound: NO_TURN,
            next_inbound: NO_TURN,
        }
    }

    pub fn from_edge_node_idx(&self) -> (r: usize)
        ensures
            r == self.from_edge_node_idx as usize,
    {
        self.from_edge_node_idx as usize
    }

    pub fn to_edge_node_idx(&self) -> (r: usize)
        ensures
            r == self.to_edge_node_idx as usize,
    {
        self.to_edge_node_idx as usize
    }

    pub fn next_outbound_idx(&self) -> (r: usize)
        ensures
            r == self.next_outbound as usize,
    {
        self.next_outbound as usize
    }

    pub fn next_inbound_idx(&self) -> (r: usize)
        ensures
            r == self.next_inbound as usize,
    {
        self.next_inbound as usize
    }
}

/// Prepends the turn stored at `ptr` to the outbound turn list of the edge
/// node `from` (forward search) and to the inbound turn list of the edge node
/// `to` (backward search). The turn takes the former list heads as its next
/// links; a list that was empty leaves its link as it was.
pub fn link_turn_edge(edge_nodes: &mut Vec<EdgeNode>, from: usize, to: usize, ptr: u64, te: &mut TurnEdge)
    requires
        from < old(edge_nodes)@.len(),
        to < old(edge_nodes)@.len(),
    ensures
        ({
            let old_out = old(edge_nodes)@[from as int].first_outbound_turn;
            let mid = old(edge_nodes)@.update(
                from as int,
                EdgeNode { first_outbound_turn: ptr, ..old(edge_nodes)@[from as int] },
            );
            let old_in = mid[to as int].first_inbound_turn;
            &&& final(edge_nodes)@ == mid.update(to as int, EdgeNode { first_inbound_turn: ptr, ..mid[to as int] })
            &&& final(te).next_outbound == if old_out == NO_TURN {
                old(te).next_outbound
            } else {
                old_out
            }
            &&& final(te).next_inbound == if old_in == NO_TURN {
                old(te).next_inbound
            } else {
                old_in
            }
            &&& final(te).from_edge_node_idx == old(te).from_edge_node_idx
            &&& final(te).to_edge_node_idx == old(te).to_edge_node_idx
            &&& final(te).turn_angle == old(te).turn_angle
            &&& final(te).restriction_mask == old(te).restriction_mask
            &&& final(te).turn_flags == old(te).turn_flags
        }),
{
    let mut f = edge_nodes[from];
    let old_out = f.first_outbound_turn;
    f.first_outbound_turn = ptr;
    edge_nodes.set(from, f);
    if old_out != NO_TURN {
        te.next_outbound = old_out;
    }
    let mut t = edge_nodes[to];
    let old_in = t.first_inbound_turn;
    t.first_inbound_turn = ptr;
    edge_nodes.set(to, t);
    if old_in != NO_TURN {
        te.next_inbound = old_in;
    }
}

impl TablePod for TurnEdge {}

impl TableData for TurnEdge {
    type Header = SimpleHeader<TurnEdge>;
}

impl Versioned for TurnEdge {
    const VERSION: u32 = 1;
}

} // verus!
