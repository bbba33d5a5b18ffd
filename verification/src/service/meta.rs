//! Human-readable metadata of ways and edges, as reported to clients.

use vstd::prelude::*;
use vstd::string::StringExecFns;

use crate::storage::access::AccessFlags;
use crate::storage::attrib::{
    highway_variant_name_spec, surface_variant_name_spec, HighwayClass, WayFlags,
};
use crate::storage::edge_node::EdgeNode;
use crate::storage::way::Way;
use crate::types::country::country_iso_spec;

verus! {

/// Metadata of a way.
pub struct WayMeta {
    /// OSM way ID.
    pub id: i64,
    /// Max speed from OSM tag in km/h; 0 means use highway-class default.
    pub max_speed: u8,
    pub highway: String,
    pub surface_quality: String,
    pub oneway: bool,
    pub toll: bool,
    pub tunnel: bool,
    pub bridge: bool,
    pub ferry: bool,
    /// Maximum height clearance in centimetres; 0 = no restriction.
    pub max_height_cm: u16,
    /// Maximum width clearance in centimetres; 0 = no restriction.
    pub max_width_cm: u16,
    /// Maximum allowed weight in kilograms; 0 = no restriction.
    pub max_weight_kg: u16,
    /// Per-direction access flags (from the representative edge).
    pub no_motor: bool,
    pub no_hgv: bool,
    pub no_bicycle: bool,
    pub no_foot: bool,
}

impl WayMeta {
    /// Build `WayMeta` from a representative `way`: class and surface by their
    /// variant names, dimensions converted from decimetres to centimetres and
    /// from units of 250 kg to kilograms.
    pub fn from(way: &Way) -> (r: Self)
        ensures
            r.id == way.id.0,
            r.max_speed == way.max_speed,
            r.highway@ == highway_variant_name_spec(way.highway),
            r.surface_quality@ == surface_variant_name_spec(way.surface_quality),
            r.oneway == (way.flags.0 & WayFlags::ONEWAY == WayFlags::ONEWAY),
            r.toll == (way.flags.0 & WayFlags::TOLL == WayFlags::TOLL),
            r.tunnel == (way.flags.0 & WayFlags::TUNNEL == WayFlags::TUNNEL),
            r.bridge == (way.flags.0 & WayFlags::BRIDGE == WayFlags::BRIDGE),
            r.ferry == (way.highway == HighwayClass::Ferry),
            r.max_height_cm == way.dim.max_height_dm * 10,
            r.max_width_cm == way.dim.max_width_dm * 10,
            r.max_weight_kg == way.dim.max_weight_250kg * 250,
            r.no_motor == (way.access.0 & AccessFlags::NO_MOTOR == AccessFlags::NO_MOTOR),
            r.no_hgv == (way.access.0 & AccessFlags::NO_HGV == AccessFlags::NO_HGV),
            r.no_bicycle == (way.access.0 & AccessFlags::NO_BICYCLE == AccessFlags::NO_BICYCLE),
            r.no_foot == (way.access.0 & AccessFlags::NO_FOOT == AccessFlags::NO_FOOT),
    {
        WayMeta {
            id: way.id.0,
            max_speed: way.max_speed,
            highway: String::from_str(way.highway.variant_name()),
            surface_quality: String::from_str(way.surface_quality.variant_name()),
            oneway: way.flags.contains(WayFlags::ONEWAY),
            toll: way.flags.contains(WayFlags::TOLL),
            tunnel: way.flags.contains(WayFlags::TUNNEL),
            bridge: way.flags.contains(WayFlags::BRIDGE),
            ferry: way.highway == HighwayClass::Ferry,
            max_height_cm: way.dim.max_height_dm as u16 * 10,
            max_width_cm: way.dim.max_width_dm as u16 * 10,
            max_weight_kg: way.dim.max_weight_250kg as u16 * 250,
            no_motor: way.access.contains(AccessFlags::NO_MOTOR),
            no_hgv: way.access.contains(AccessFlags::NO_HGV),
            no_bicycle: way.access.contains(AccessFlags::NO_BICYCLE),
            no_foot: way.access.contains(AccessFlags::NO_FOOT),
        }
    }
}

/// Metadata of an edge.
pub struct EdgeMeta {
    /// ISO 3166-1 alpha-2 country code, or `None` if unknown.
    pub country_id: Option<String>,
    /// Length of the representative edge segment in metres.
    pub dist_m: u32,
    /// Index of the from-node of this edge within the accompanying `node_meta` array.
    pub from_node_idx: Option<usize>,
    /// Index of the to-node of this edge within the accompanying `node_meta` array.
    pub to_node_idx: Option<usize>,
}

impl EdgeMeta {
    /// Build `EdgeMeta` from an edge, with the country by its ISO code.
    pub fn from(edge: &EdgeNode, from_node_idx: Option<usize>, to_node_idx: Option<usize>) -> (r: Self)
        ensures
            match (r.country_id, country_iso_spec(edge.country_id.0)) {
                (Some(s), Some(iso)) => s@ == iso,
                (None, None) => true,
                _ => false,
            },
            r.dist_m == edge.dist_m,
            r.from_node_idx == from_node_idx,
            r.to_node_idx == to_node_idx,
    {
        let country_id = match edge.country_id.to_iso2() {
            Some(iso) => Some(String::from_str(iso)),
            None => None,
        };
        EdgeMeta { country_id, dist_m: edge.dist_m, from_node_idx, to_node_idx }
    }
}

} // verus!
