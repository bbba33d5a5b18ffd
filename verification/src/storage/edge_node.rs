//! Directed compressed road segments: the nodes of the edge-based routing graph.

use vstd::prelude::*;

use crate::storage::header::{SimpleHeader, TableData, TablePod, Versioned};

use crate::types::country::CountryId;

verus! {

/// Marks the end of a turn list.
pub const NO_TURN: u64 = 0xffff_ffff_ffff_ffff;

/// Per-edge-node chain record used while linking edge nodes to their end nodes.
///
/// Holds the "next" pointers of the two per-node edge-node lists: those that
/// start at a node and those that end there.
#[derive(Copy, Clone, Debug, PartialEq, Eq, Structural)]
pub struct EdgeNodeChain {
    /// Next edge node in the from-node's outgoing list.
    pub next_out: u64,
    /// Next edge node in the to-node's incoming list.
    pub next_in: u64,
}

impl EdgeNodeChain {
    /// The end-of-list marker.
    pub const NONE: u64 = 0xffff_ffff_ffff_ffff;

    /// A record linked into no list yet.
    pub fn new() -> (r: Self)
        ensures
            r.next_out == NO_TURN,
            r.next_in == NO_TURN,
    {
        EdgeNodeChain { next_out: NO_TURN, next_in: NO_TURN }
    }

    pub fn next_outgoing(&self) -> (r: usize)
        ensures
            r == self.next_out as usize,
    {
        self.next_out as usize
    }

    pub fn next_incoming(&self) -> (r: usize)
        ensures
            r == self.next_in as usize,
    {
        self.next_in as usize
    }
}

/// A directed compressed road segment: the routing node in the edge-based graph.
///
/// One `EdgeNode` is emitted per directed segment between two intersection nodes.
/// Bidirectional ways emit two `EdgeNode`s sharing the same geometry slice.
/// The **sign** of `geometry_len` encodes traversal direction:
/// positive is forward, negative is backward.
#[derive(Copy, Clone, Debug, PartialEq, Eq, Structural)]
pub struct EdgeNode {
    /// Index of the directional way entry.
    pub way_idx: u64,
    /// Total distance of the segment in metres.
    pub dist_m: u32,
    /// Country where the segment's from-position is located.
    pub country_id: CountryId,
    /// Signed geometry delta: sign is the direction, magnitude the number of segments.
    pub geometry_len: i16,
    /// Head of the outbound turn list (forward search).
    pub first_outbound_turn: u64,
    /// Head of the inbound turn list (backward search).
    pub first_inbound_turn: u64,
    /// Index of the from-position in the geometry table.
    pub geometry_from_idx: u64,
}

/// The absolute value of a geometry delta.
pub open spec fn abs_len(l: i16) -> nat {
    if l < 0 {
        (-l) as nat
    } else {
        l as nat
    }
}

impl EdgeNode {
    /// `geometry_from_idx`: from-node index (the last stored node for backward edges).
    /// `geometry_len`: signed delta to the to-node (`to = from + len`).
    pub fn new(
        way_idx: u64,
        dist_m: u32,
        country_id: CountryId,
        geometry_from_idx: u64,
        geometry_len: i16,
    ) -> (r: Self)
        ensures
            r.way_idx == way_idx,
            r.dist_m == dist_m,
            r.country_id == country_id,
            r.geometry_from_idx == geometry_from_idx,
            r.geometry_len == geometry_len,
            r.first_outbound_turn == NO_TURN,
            r.first_inbound_turn == NO_TURN,
    {
        EdgeNode {
            way_idx,
            dist_m,
            country_id,
            geometry_len,
            first_outbound_turn: NO_TURN,
            first_inbound_turn: NO_TURN,
            geometry_from_idx,
        }
    }

    pub fn way_idx(&self) -> (r: usize)
        ensures
            r == self.way_idx as usize,
    {
        self.way_idx as usize
    }

    /// From-node index in the geometry table.
    pub fn geometry_from_idx(&self) -> (r: usize)
        ensures
            r == self.geometry_from_idx as usize,
    {
        self.geometry_from_idx as usize
    }

    /// Whether both ends, `geometry_from_idx` and `geometry_from_idx + geometry_len`,
    /// are valid indices.
    pub open spec fn to_idx_valid(self) -> bool {
        &&& 0 <= self.geometry_from_idx + self.geometry_len <= usize::MAX
        &&& self.geometry_from_idx <= usize::MAX
    }

    /// To-node index in the geometry table (`geometry_from_idx + geometry_len`).
    /// For backward edges `geometry_to_idx() < geometry_from_idx()`.
    pub fn geometry_to_idx(&self) -> (r: usize)
        requires
            self.to_idx_valid(),
        ensures
            r == self.geometry_from_idx + self.geometry_len,
    {
        if self.geometry_len < 0 {
            let back = (0i32 - self.geometry_len as i32) as u64;
            (self.geometry_from_idx - back) as usize
        } else {
            (self.geometry_from_idx + self.geometry_len as u64) as usize
        }
    }

    /// Number of geometry points in the slice.
    pub fn geometry_count(&self) -> (r: usize)
        ensures
            r == abs_len(self.geometry_len) + 1,
    {
        if self.geometry_len < 0 {
            (0i32 - self.geometry_len as i32) as usize + 1
        } else {
            self.geometry_len as usize + 1
        }
    }

    /// Storage range of geometry point indices (ascending, direction-independent).
    pub fn geometry_range(&self) -> (r: std::ops::RangeInclusive<usize>)
        requires
            self.to_idx_valid(),
        ensures
            self.geometry_len < 0 ==> r@.start == self.geometry_from_idx + self.geometry_len
                && r@.end == self.geometry_from_idx,
            self.geometry_len >= 0 ==> r@.start == self.geometry_from_idx && r@.end
                == self.geometry_from_idx + self.geometry_len,
    {
        if self.is_backward() {
            std::ops::RangeInclusive::new(self.geometry_to_idx(), self.geometry_from_idx())
        } else {
            std::ops::RangeInclusive::new(self.geometry_from_idx(), self.geometry_to_idx())
        }
    }

    /// True if this edge node traverses its geometry slice in reverse.
    pub fn is_backward(&self) -> (r: bool)
        ensures
            r == (self.geometry_len < 0),
    {
        self.geometry_len < 0
    }

    pub fn first_outbound_turn_idx(&self) -> (r: usize)
        ensures
            r == self.first_outbound_turn as usize,
    {
        self.first_outbound_turn as usize
    }

    pub fn first_inbound_turn_idx(&self) -> (r: usize)
        ensures
            r == self.first_inbound_turn as usize,
    {
        self.first_inbound_turn as usize
    }
}

/// The geometry range holds exactly `geometry_count` indices.
pub proof fn lemma_geometry_range_len(e: EdgeNode)
    requires
        e.to_idx_valid(),
    ensures
        (if e.geometry_len < 0 {
            e.geometry_from_idx - (e.geometry_from_idx + e.geometry_len)
        } else {
            (e.geometry_from_idx + e.geometry_len) - e.geometry_from_idx
        }) + 1 == abs_len(e.geometry_len) + 1,
{
}

impl TablePod for EdgeNode {}

impl TableData for EdgeNode {
    type Header = SimpleHeader<EdgeNode>;
}

impl Versioned for EdgeNode {
    const VERSION: u32 = 1;
}

impl TablePod for EdgeNodeChain {}

impl TableData for EdgeNodeChain {
    type Header = SimpleHeader<EdgeNodeChain>;
}

impl Versioned for EdgeNodeChain {
    const VERSION: u32 = 1;
}

} // verus!
