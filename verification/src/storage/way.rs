//! Shared OSM-way metadata records.

use vstd::prelude::*;

use crate::storage::header::{Item, SimpleHeader, TableData, TablePod, Versioned};

use crate::storage::access::AccessFlags;
use crate::storage::attrib::{HighwayClass, SurfaceQuality, WayFlags};
use crate::storage::dim_restriction::DimRestriction;

verus! {

/// An OSM way id.
#[derive(Copy, Clone, Debug, Default, PartialEq, Eq, Structural)]
pub struct WayId(pub i64);

/// Shared OSM-way metadata. One or two entries per OSM way.
///
/// When a way has identical properties in both directions, a single entry covers both
/// (`DIRECTION_FORWARD` and `DIRECTION_BACKWARD` are both unset). When directions
/// differ, two consecutive entries are emitted with the same `id`: the first with
/// `DIRECTION_FORWARD | HAS_PAIR`, the second with `DIRECTION_BACKWARD | HAS_PAIR`.
#[derive(Copy, Clone, Debug, PartialEq, Eq, Structural)]
pub struct Way {
    pub id: WayId,
    pub flags: WayFlags,
    pub highway: HighwayClass,
    /// Road surface quality tier.
    pub surface_quality: SurfaceQuality,
    /// Per-direction vehicle access restrictions.
    pub access: AccessFlags,
    /// Max speed in km/h for this direction (0 = use profile default for highway class).
    pub max_speed: u8,
    /// Physical dimension restrictions (0 in any field = no restriction).
    pub dim: DimRestriction,
    /// Position of the way's first node reference in the node reference table.
    pub node_refs_idx: u64,
    /// Number of node references of the way.
    pub node_refs_count: u16,
}

impl Way {
    pub fn new(id: WayId) -> (r: Self)
        ensures
            r.id == id,
            r.flags.0 == 0,
            r.highway == HighwayClass::Unknown,
            r.surface_quality == SurfaceQuality::Unknown,
            r.access.0 == 0,
            r.max_speed == 0,
            r.dim.is_none_spec(),
            r.node_refs_idx == 0,
            r.node_refs_count == 0,
    {
        Way {
            id,
            flags: WayFlags(0),
            highway: HighwayClass::Unknown,
            surface_quality: SurfaceQuality::Unknown,
            access: AccessFlags(0),
            max_speed: 0,
            dim: DimRestriction::none(),
            node_refs_idx: 0,
            node_refs_count: 0,
        }
    }

    /// True when this entry covers the forward direction (or both, if `HAS_PAIR` is unset).
    pub fn is_forward(&self) -> (r: bool)
        ensures
            r == (self.flags.0 & WayFlags::DIRECTION_BACKWARD != WayFlags::DIRECTION_BACKWARD),
    {
        !self.flags.contains(WayFlags::DIRECTION_BACKWARD)
    }

    /// True when this entry covers the backward direction (or both, if `HAS_PAIR` is unset).
    pub fn is_backward(&self) -> (r: bool)
        ensures
            r == (self.flags.0 & WayFlags::DIRECTION_FORWARD != WayFlags::DIRECTION_FORWARD),
    {
        !self.flags.contains(WayFlags::DIRECTION_FORWARD)
    }

}

/// An entry without direction flags covers both directions.
pub proof fn lemma_undirected_way_covers_both(w: Way)
    requires
        w.flags.0 & (WayFlags::DIRECTION_FORWARD | WayFlags::DIRECTION_BACKWARD) == 0,
    ensures
        w.flags.0 & WayFlags::DIRECTION_BACKWARD != WayFlags::DIRECTION_BACKWARD,
        w.flags.0 & WayFlags::DIRECTION_FORWARD != WayFlags::DIRECTION_FORWARD,
{
    let f = w.flags.0;
    assert(f & (0x0100u16 | 0x0200u16) == 0 ==> f & 0x0200u16 != 0x0200u16 && f & 0x0100u16 != 0x0100u16) by (bit_vector);
}

/// Extended attributes for an OSM way, keyed by [`WayId`].
#[derive(Copy, Clone, Debug, Default, PartialEq, Eq, Structural)]
pub struct WayExtended {
    /// OSM way ID: used as the lookup key.
    pub id: WayId,
    pub dim: DimRestriction,
}

impl WayExtended {
    pub fn new(id: WayId, dim: DimRestriction) -> (r: Self)
        ensures
            r.id == id,
            r.dim == dim,
    {
        WayExtended { id, dim }
    }
}

impl TablePod for Way {}

impl Item for Way {
    /// The lookup key of the entry: the OSM id as an unsigned number.
    open spec fn key_spec(&self) -> u64 {
        self.id.0 as u64
    }

    fn key(&self) -> (r: u64) {
        self.id.0 as u64
    }
}

impl TableData for Way {
    type Header = SimpleHeader<Way>;
}

impl Versioned for Way {
    const VERSION: u32 = 6;
}

impl TablePod for WayExtended {}

impl TableData for WayExtended {
    type Header = SimpleHeader<WayExtended>;
}

impl Versioned for WayExtended {
    const VERSION: u32 = 1;
}

} // verus!
