//! OSM nodes: their ids, flags, and the heads of the lists of edge nodes
//! that start and end at them.

use vstd::prelude::*;

use crate::storage::attrib::NodeFlags;
use crate::storage::edge_node::EdgeNodeChain;
use crate::storage::header::{Item, SimpleHeader, TableData, TablePod, Versioned};

verus! {

/// The "no edge" marker of a node's edge lists.
pub const NO_EDGE: u64 = 0xffff_ffff_ffff_ffff;

/// An OSM node id.
#[derive(Copy, Clone, Debug, Default, PartialEq, Eq, PartialOrd, Ord, Structural)]
pub struct NodeId(pub i64);

/// What the graph build reads and writes of a node: its id, its flags, how
/// many ways refer to it, and the heads of the lists of edge nodes that start
/// and end at it. Its position is kept with the geometry.
#[derive(Copy, Clone, Debug, PartialEq, Eq, Structural)]
pub struct Node {
    pub id: NodeId,
    /// Head of the list of edge nodes that start at this node (outgoing).
    pub first_outgoing_edge_node_idx: u64,
    /// Head of the list of edge nodes that end at this node (incoming).
    pub first_incoming_edge_node_idx: u64,
    /// Access restrictions and routing hints derived from OSM node tags.
    pub flags: u8,
    /// How many way references point at this node.
    pub num_refs: u32,
}

impl Node {
    /// A node with no flags, no references and empty edge lists.
    pub fn new(id: NodeId) -> (r: Self)
        ensures
            r.id == id,
            r.first_outgoing_edge_node_idx == NO_EDGE,
            r.first_incoming_edge_node_idx == NO_EDGE,
            r.flags == 0,
            r.num_refs == 0,
    {
        Node { id, first_outgoing_edge_node_idx: NO_EDGE, first_incoming_edge_node_idx: NO_EDGE, flags: 0, num_refs: 0 }
    }

    pub fn node_flags(&self) -> (r: NodeFlags)
        ensures
            r.0 == self.flags,
    {
        NodeFlags(self.flags)
    }

    pub fn first_outgoing_edge_node_idx(&self) -> (r: usize)
        ensures
            r == self.first_outgoing_edge_node_idx as usize,
    {
        self.first_outgoing_edge_node_idx as usize
    }

    pub fn first_incoming_edge_node_idx(&self) -> (r: usize)
        ensures
            r == self.first_incoming_edge_node_idx as usize,
    {
        self.first_incoming_edge_node_idx as usize
    }

    /// Whether some edge node starts or ends at this node.
    pub fn is_connected(&self) -> (r: bool)
        ensures
            r == (self.first_outgoing_edge_node_idx != NO_EDGE || self.first_incoming_edge_node_idx != NO_EDGE),
    {
        self.first_outgoing_edge_node_idx != NO_EDGE || self.first_incoming_edge_node_idx != NO_EDGE
    }
}

impl TablePod for Node {}

impl Item for Node {
    /// The lookup key of a node: its OSM id as an unsigned number.
    open spec fn key_spec(&self) -> u64 {
        self.id.0 as u64
    }

    fn key(&self) -> (r: u64) {
        self.id.0 as u64
    }
}

impl TableData for Node {
    type Header = SimpleHeader<Node>;
}

impl Versioned for Node {
    const VERSION: u32 = 3;
}

/// Prepends the edge node at `ptr` to the outgoing list of the node `from`
/// (edge nodes that start there) and to the incoming list of the node `to`
/// (edge nodes that end there). The chain record takes the former list heads
/// as its next links; a list that was empty leaves its link as it was.
pub fn link_edge_node_to_nodes(nodes: &mut Vec<Node>, from: usize, to: usize, ptr: u64, chain: &mut EdgeNodeChain)
    requires
        from < old(nodes)@.len(),
        to < old(nodes)@.len(),
    ensures
        ({
            let old_out = old(nodes)@[from as int].first_outgoing_edge_node_idx;
            let mid = old(nodes)@.update(
                from as int,
                Node { first_outgoing_edge_node_idx: ptr, ..old(nodes)@[from as int] },
            );
            let old_in = mid[to as int].first_incoming_edge_node_idx;
            &&& final(nodes)@ == mid.update(to as int, Node { first_incoming_edge_node_idx: ptr, ..mid[to as int] })
            &&& final(chain).next_out == if old_out == NO_EDGE {
                old(chain).next_out
            } else {
                old_out
            }
            &&& final(chain).next_in == if old_in == NO_EDGE {
                old(chain).next_in
            } else {
                old_in
            }
        }),
{
    let mut f = nodes[from];
    let old_out = f.first_outgoing_edge_node_idx;
    f.first_outgoing_edge_node_idx = ptr;
    nodes.set(from, f);
    if old_out != NO_EDGE {
        chain.next_out = old_out;
    }
    let mut t = nodes[to];
    let old_in = t.first_incoming_edge_node_idx;
    t.first_incoming_edge_node_idx = ptr;
    nodes.set(to, t);
    if old_in != NO_EDGE {
        chain.next_in = old_in;
    }
}

} // verus!
