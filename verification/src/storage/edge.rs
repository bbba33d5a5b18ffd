//! Road segments between two OSM nodes, as read from the input before the
//! graph is compressed into edge nodes.

use vstd::prelude::*;

use crate::storage::access::AccessFlags;
use crate::storage::header::{SimpleHeader, TableData, TablePod, Versioned};
use crate::storage::node::NO_EDGE;
use crate::types::country::CountryId;

verus! {

/// A directed segment between two nodes of a way, linked into the edge
/// lists of its nodes.
#[derive(Copy, Clone, Debug, PartialEq, Eq, Structural)]
pub struct Edge {
    /// Before node-index resolution: raw NodeId cast to u64. After: node table index.
    pub from_node_idx: u64,
    /// Before node-index resolution: raw NodeId cast to u64. After: node table index.
    pub to_node_idx: u64,
    /// Next edge in the from-node's edge list.
    pub next_edge: u64,
    /// Next edge in the to-node's reverse edge list.
    pub next_edge_reverse: u64,
    /// Before Way-index resolution: raw WayId cast to u64. After: Way table index.
    pub way_idx: u64,
    /// Distance in metres between from- and to-node; 0 before resolution.
    pub dist_m: u16,
    /// Per-direction max speed in km/h; 0 means fall back to `Way::max_speed`.
    pub max_speed: u8,
    /// Per-direction vehicle access restrictions.
    pub flags: AccessFlags,
    /// Country where this edge segment is located; set during resolution.
    pub country_id: CountryId,
}

impl Edge {
    /// An edge as read from the input: `from` and `to` are raw node ids cast
    /// to `u64`, and the raw way id stands in `way_idx` until resolution
    /// replaces it with the way's row. It is linked into no list, and its
    /// distance and country are not known yet.
    pub fn new(from: u64, to: u64, way_id_raw: i64, flags: AccessFlags, max_speed: u8) -> (r: Self)
        ensures
            r.from_node_idx == from,
            r.to_node_idx == to,
            r.next_edge == NO_EDGE,
            r.next_edge_reverse == NO_EDGE,
            r.way_idx == way_id_raw as u64,
            r.dist_m == 0,
            r.max_speed == max_speed,
            r.flags == flags,
            r.country_id.0 == 0,
    {
        Edge {
            from_node_idx: from,
            to_node_idx: to,
            next_edge: NO_EDGE,
            next_edge_reverse: NO_EDGE,
            way_idx: way_id_raw as u64,
            dist_m: 0,
            max_speed,
            flags,
            country_id: CountryId::unknown(),
        }
    }

    /// Way table index (valid after resolution).
    pub fn way_idx(&self) -> (r: usize)
        ensures
            r == self.way_idx as usize,
    {
        self.way_idx as usize
    }

    pub fn from_node_idx(&self) -> (r: usize)
        ensures
            r == self.from_node_idx as usize,
    {
        self.from_node_idx as usize
    }

    pub fn to_node_idx(&self) -> (r: usize)
        ensures
            r == self.to_node_idx as usize,
    {
        self.to_node_idx as usize
    }

    /// Resolution: the way's row replaces the raw way id, and the distance
    /// and country are stored; the rest stays.
    pub fn resolve(&mut self, way_idx: usize, dist_m: u16, country_id: CountryId)
        ensures
            *final(self) == (Edge { way_idx: way_idx as u64, dist_m, country_id, ..*old(self) }),
    {
        self.way_idx = way_idx as u64;
        self.dist_m = dist_m;
        self.country_id = country_id;
    }

    pub fn next_edge(&self) -> (r: usize)
        ensures
            r == self.next_edge as usize,
    {
        self.next_edge as usize
    }

    pub fn next_edge_reverse(&self) -> (r: usize)
        ensures
            r == self.next_edge_reverse as usize,
    {
        self.next_edge_reverse as usize
    }
}

impl TablePod for Edge {}

impl TableData for Edge {
    type Header = SimpleHeader<Edge>;
}

impl Versioned for Edge {
    const VERSION: u32 = 1;
}

} // verus!
