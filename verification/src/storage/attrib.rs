//! Per-way and per-node attributes: flag sets, highway classes and surface quality.

use vstd::prelude::*;

use crate::text::str_eq;

verus! {

/// Access and direction restrictions encoded per way.
#[derive(Copy, Clone, Debug, Default, PartialEq, Eq, Structural)]
pub struct WayFlags(pub u16);

impl WayFlags {
    /// Way is only traversable in one direction.
    pub const ONEWAY: u16 = 0x0001;
    /// Toll road: passing this way incurs a toll charge.
    pub const TOLL: u16 = 0x0002;
    /// Motor vehicles not allowed.
    pub const NO_MOTOR: u16 = 0x0004;
    /// HGV (heavy goods vehicles) not allowed.
    pub const NO_HGV: u16 = 0x0008;
    /// Bicycles not allowed.
    pub const NO_BICYCLE: u16 = 0x0010;
    /// Pedestrians not allowed.
    pub const NO_FOOT: u16 = 0x0020;
    /// Way passes through a tunnel.
    pub const TUNNEL: u16 = 0x0040;
    /// Way is on a bridge.
    pub const BRIDGE: u16 = 0x0080;
    /// Entry covers only the forward direction (first to last node).
    pub const DIRECTION_FORWARD: u16 = 0x0100;
    /// Entry covers only the backward direction (last to first node).
    pub const DIRECTION_BACKWARD: u16 = 0x0200;
    /// The way has a second entry for the other direction.
    pub const HAS_PAIR: u16 = 0x0400;

    pub fn empty() -> (r: Self)
        ensures
            r.0 == 0,
    {
        WayFlags(0)
    }

    pub fn bits(self) -> (r: u16)
        ensures
            r == self.0,
    {
        self.0
    }

    /// True when every bit of `bits` is set.
    pub fn contains(self, bits: u16) -> (r: bool)
        ensures
            r == (self.0 & bits == bits),
    {
        self.0 & bits == bits
    }

    pub fn union(self, bits: u16) -> (r: Self)
        ensures
            r.0 == self.0 | bits,
    {
        WayFlags(self.0 | bits)
    }
}

/// Access restrictions and routing hints encoded per node.
#[derive(Copy, Clone, Debug, Default, PartialEq, Eq, Structural)]
pub struct NodeFlags(pub u8);

impl NodeFlags {
    /// Motor vehicles cannot pass this node (barrier).
    pub const NO_MOTOR: u8 = 0x01;
    /// HGV cannot pass this node.
    pub const NO_HGV: u8 = 0x02;
    /// Bicycles cannot pass this node (barrier).
    pub const NO_BICYCLE: u8 = 0x04;
    /// Pedestrians cannot pass this node.
    pub const NO_FOOT: u8 = 0x08;
    /// Node has traffic signals: routing may add an intersection penalty.
    pub const TRAFFIC_SIGNALS: u8 = 0x10;
    /// Toll booth at this node.
    pub const TOLL: u8 = 0x20;
    /// Two or more way references point at this node.
    pub const INTERSECTION: u8 = 0x40;
    /// The node is the first or last node of a way.
    pub const ENDPOINT: u8 = 0x80;

    pub fn empty() -> (r: Self)
        ensures
            r.0 == 0,
    {
        NodeFlags(0)
    }

    pub fn bits(self) -> (r: u8)
        ensures
            r == self.0,
    {
        self.0
    }

    /// True when every bit of `bits` is set.
    pub fn contains(self, bits: u8) -> (r: bool)
        ensures
            r == (self.0 & bits == bits),
    {
        self.0 & bits == bits
    }
}

/// Flags of a turn, taken from its via-node.
#[derive(Copy, Clone, Debug, Default, PartialEq, Eq, Structural)]
pub struct TurnFlags(pub u8);

impl TurnFlags {
    /// The via-node has traffic signals.
    pub const TRAFFIC_SIGNALS: u8 = 0x01;
    /// The via-node is a toll booth.
    pub const TOLL: u8 = 0x02;

    /// True when every bit of `bits` is set.
    pub fn contains(self, bits: u8) -> (r: bool)
        ensures
            r == (self.0 & bits == bits),
    {
        self.0 & bits == bits
    }
}

/// Highway class used for default speed lookups.
#[derive(Copy, Clone, Debug, Default, PartialEq, Eq, Structural)]
pub enum HighwayClass {
    #[default]
    Unknown,
    Motorway,
    Trunk,
    Primary,
    Secondary,
    Tertiary,
    MotorwayLink,
    TrunkLink,
    PrimaryLink,
    SecondaryLink,
    TertiaryLink,
    Unclassified,
    Residential,
    LivingStreet,
    Service,
    Track,
    Road,
    Pedestrian,
    Footway,
    Cycleway,
    Path,
    Bridleway,
    Ferry,
}

/// Number of `HighwayClass` variants.
pub const HIGHWAY_CLASS_COUNT: usize = 23;

/// The canonical name of a highway class.
pub open spec fn highway_name_spec(h: HighwayClass) -> Seq<char> {
    match h {
        HighwayClass::Unknown => "unknown"@,
        HighwayClass::Motorway => "motorway"@,
        HighwayClass::Trunk => "trunk"@,
        HighwayClass::Primary => "primary"@,
        HighwayClass::Secondary => "secondary"@,
        HighwayClass::Tertiary => "tertiary"@,
        HighwayClass::MotorwayLink => "motorway_link"@,
        HighwayClass::TrunkLink => "trunk_link"@,
        HighwayClass::PrimaryLink => "primary_link"@,
        HighwayClass::SecondaryLink => "secondary_link"@,
        HighwayClass::TertiaryLink => "tertiary_link"@,
        HighwayClass::Unclassified => "unclassified"@,
        HighwayClass::Residential => "residential"@,
        HighwayClass::LivingStreet => "living_street"@,
        HighwayClass::Service => "service"@,
        HighwayClass::Track => "track"@,
        HighwayClass::Road => "road"@,
        HighwayClass::Pedestrian => "pedestrian"@,
        HighwayClass::Footway => "footway"@,
        HighwayClass::Cycleway => "cycleway"@,
        HighwayClass::Path => "path"@,
        HighwayClass::Bridleway => "bridleway"@,
        HighwayClass::Ferry => "ferry"@,
    }
}

/// The highway class whose canonical name is `s`, if any.
pub open spec fn highway_from_name_spec(s: Seq<char>) -> Option<HighwayClass> {
    if s == "unknown"@ {
        Some(HighwayClass::Unknown)
    } else if s == "motorway"@ {
        Some(HighwayClass::Motorway)
    } else if s == "trunk"@ {
        Some(HighwayClass::Trunk)
    } else if s == "primary"@ {
        Some(HighwayClass::Primary)
    } else if s == "secondary"@ {
        Some(HighwayClass::Secondary)
    } else if s == "tertiary"@ {
        Some(HighwayClass::Tertiary)
    } else if s == "motorway_link"@ {
        Some(HighwayClass::MotorwayLink)
    } else if s == "trunk_link"@ {
        Some(HighwayClass::TrunkLink)
    } else if s == "primary_link"@ {
        Some(HighwayClass::PrimaryLink)
    } else if s == "secondary_link"@ {
        Some(HighwayClass::SecondaryLink)
    } else if s == "tertiary_link"@ {
        Some(HighwayClass::TertiaryLink)
    } else if s == "unclassified"@ {
        Some(HighwayClass::Unclassified)
    } else if s == "residential"@ {
        Some(HighwayClass::Residential)
    } else if s == "living_street"@ {
        Some(HighwayClass::LivingStreet)
    } else if s == "service"@ {
        Some(HighwayClass::Service)
    } else if s == "track"@ {
        Some(HighwayClass::Track)
    } else if s == "road"@ {
        Some(HighwayClass::Road)
    } else if s == "pedestrian"@ {
        Some(HighwayClass::Pedestrian)
    } else if s == "footway"@ {
        Some(HighwayClass::Footway)
    } else if s == "cycleway"@ {
        Some(HighwayClass::Cycleway)
    } else if s == "path"@ {
        Some(HighwayClass::Path)
    } else if s == "bridleway"@ {
        Some(HighwayClass::Bridleway)
    } else if s == "ferry"@ {
        Some(HighwayClass::Ferry)
    } else {
        None
    }
}

impl HighwayClass {
    /// The position of the variant in declaration order.
    pub open spec fn index_spec(self) -> nat {
        match self {
            HighwayClass::Unknown => 0,
            HighwayClass::Motorway => 1,
            HighwayClass::Trunk => 2,
            HighwayClass::Primary => 3,
            HighwayClass::Secondary => 4,
            HighwayClass::Tertiary => 5,
            HighwayClass::MotorwayLink => 6,
            HighwayClass::TrunkLink => 7,
            HighwayClass::PrimaryLink => 8,
            HighwayClass::SecondaryLink => 9,
            HighwayClass::TertiaryLink => 10,
            HighwayClass::Unclassified => 11,
            HighwayClass::Residential => 12,
            HighwayClass::LivingStreet => 13,
            HighwayClass::Service => 14,
            HighwayClass::Track => 15,
            HighwayClass::Road => 16,
            HighwayClass::Pedestrian => 17,
            HighwayClass::Footway => 18,
            HighwayClass::Cycleway => 19,
            HighwayClass::Path => 20,
            HighwayClass::Bridleway => 21,
            HighwayClass::Ferry => 22,
        }
    }

    /// The position of the variant in declaration order (its discriminant).
    pub fn index(self) -> (r: usize)
        ensures
            r == self.index_spec(),
            r < HIGHWAY_CLASS_COUNT,
    {
        match self {
            HighwayClass::Unknown => 0,
            HighwayClass::Motorway => 1,
            HighwayClass::Trunk => 2,
            HighwayClass::Primary => 3,
            HighwayClass::Secondary => 4,
            HighwayClass::Tertiary => 5,
            HighwayClass::MotorwayLink => 6,
            HighwayClass::TrunkLink => 7,
            HighwayClass::PrimaryLink => 8,
            HighwayClass::SecondaryLink => 9,
            HighwayClass::TertiaryLink => 10,
            HighwayClass::Unclassified => 11,
            HighwayClass::Residential => 12,
            HighwayClass::LivingStreet => 13,
            HighwayClass::Service => 14,
            HighwayClass::Track => 15,
            HighwayClass::Road => 16,
            HighwayClass::Pedestrian => 17,
            HighwayClass::Footway => 18,
            HighwayClass::Cycleway => 19,
            HighwayClass::Path => 20,
            HighwayClass::Bridleway => 21,
            HighwayClass::Ferry => 22,
        }
    }

    pub fn name(self) -> (r: &'static str)
        ensures
            r@ == highway_name_spec(self),
    {
        match self {
            HighwayClass::Unknown => "unknown",
            HighwayClass::Motorway => "motorway",
            HighwayClass::Trunk => "trunk",
            HighwayClass::Primary => "primary",
            HighwayClass::Secondary => "secondary",
            HighwayClass::Tertiary => "tertiary",
            HighwayClass::MotorwayLink => "motorway_link",
            HighwayClass::TrunkLink => "trunk_link",
            HighwayClass::PrimaryLink => "primary_link",
            HighwayClass::SecondaryLink => "secondary_link",
            HighwayClass::TertiaryLink => "tertiary_link",
            HighwayClass::Unclassified => "unclassified",
            HighwayClass::Residential => "residential",
            HighwayClass::LivingStreet => "living_street",
            HighwayClass::Service => "service",
            HighwayClass::Track => "track",
            HighwayClass::Road => "road",
            HighwayClass::Pedestrian => "pedestrian",
            HighwayClass::Footway => "footway",
            HighwayClass::Cycleway => "cycleway",
            HighwayClass::Path => "path",
            HighwayClass::Bridleway => "bridleway",
            HighwayClass::Ferry => "ferry",
        }
    }

    pub fn from_name(s: &str) -> (r: Option<Self>)
        ensures
            r == highway_from_name_spec(s@),
    {
        if str_eq(s, "unknown") {
            Some(HighwayClass::Unknown)
        } else if str_eq(s, "motorway") {
            Some(HighwayClass::Motorway)
        } else if str_eq(s, "trunk") {
            Some(HighwayClass::Trunk)
        } else if str_eq(s, "primary") {
            Some(HighwayClass::Primary)
        } else if str_eq(s, "secondary") {
            Some(HighwayClass::Secondary)
        } else if str_eq(s, "tertiary") {
            Some(HighwayClass::Tertiary)
        } else if str_eq(s, "motorway_link") {
            Some(HighwayClass::MotorwayLink)
        } else if str_eq(s, "trunk_link") {
            Some(HighwayClass::TrunkLink)
        } else if str_eq(s, "primary_link") {
            Some(HighwayClass::PrimaryLink)
        } else if str_eq(s, "secondary_link") {
            Some(HighwayClass::SecondaryLink)
        } else if str_eq(s, "tertiary_link") {
            Some(HighwayClass::TertiaryLink)
        } else if str_eq(s, "unclassified") {
            Some(HighwayClass::Unclassified)
        } else if str_eq(s, "residential") {
            Some(HighwayClass::Residential)
        } else if str_eq(s, "living_street") {
            Some(HighwayClass::LivingStreet)
        } else if str_eq(s, "service") {
            Some(HighwayClass::Service)
        } else if str_eq(s, "track") {
            Some(HighwayClass::Track)
        } else if str_eq(s, "road") {
            Some(HighwayClass::Road)
        } else if str_eq(s, "pedestrian") {
            Some(HighwayClass::Pedestrian)
        } else if str_eq(s, "footway") {
            Some(HighwayClass::Footway)
        } else if str_eq(s, "cycleway") {
            Some(HighwayClass::Cycleway)
        } else if str_eq(s, "path") {
            Some(HighwayClass::Path)
        } else if str_eq(s, "bridleway") {
            Some(HighwayClass::Bridleway)
        } else if str_eq(s, "ferry") {
            Some(HighwayClass::Ferry)
        } else {
            None
        }
    }

    /// The name of the variant as written in Rust (`Motorway`, `LivingStreet`, ...).
    pub fn variant_name(self) -> (r: &'static str)
        ensures
            r@ == highway_variant_name_spec(self),
    {
        match self {
            HighwayClass::Unknown => "Unknown",
            HighwayClass::Motorway => "Motorway",
            HighwayClass::Trunk => "Trunk",
            HighwayClass::Primary => "Primary",
            HighwayClass::Secondary => "Secondary",
            HighwayClass::Tertiary => "Tertiary",
            HighwayClass::MotorwayLink => "MotorwayLink",
            HighwayClass::TrunkLink => "TrunkLink",
            HighwayClass::PrimaryLink => "PrimaryLink",
            HighwayClass::SecondaryLink => "SecondaryLink",
            HighwayClass::TertiaryLink => "TertiaryLink",
            HighwayClass::Unclassified => "Unclassified",
            HighwayClass::Residential => "Residential",
            HighwayClass::LivingStreet => "LivingStreet",
            HighwayClass::Service => "Service",
            HighwayClass::Track => "Track",
            HighwayClass::Road => "Road",
            HighwayClass::Pedestrian => "Pedestrian",
            HighwayClass::Footway => "Footway",
            HighwayClass::Cycleway => "Cycleway",
            HighwayClass::Path => "Path",
            HighwayClass::Bridleway => "Bridleway",
            HighwayClass::Ferry => "Ferry",
        }
    }
}

/// The name of the variant as written in Rust.
pub open spec fn highway_variant_name_spec(h: HighwayClass) -> Seq<char> {
    match h {
        HighwayClass::Unknown => "Unknown"@,
        HighwayClass::Motorway => "Motorway"@,
        HighwayClass::Trunk => "Trunk"@,
        HighwayClass::Primary => "Primary"@,
        HighwayClass::Secondary => "Secondary"@,
        HighwayClass::Tertiary => "Tertiary"@,
        HighwayClass::MotorwayLink => "MotorwayLink"@,
        HighwayClass::TrunkLink => "TrunkLink"@,
        HighwayClass::PrimaryLink => "PrimaryLink"@,
        HighwayClass::SecondaryLink => "SecondaryLink"@,
        HighwayClass::TertiaryLink => "TertiaryLink"@,
        HighwayClass::Unclassified => "Unclassified"@,
        HighwayClass::Residential => "Residential"@,
        HighwayClass::LivingStreet => "LivingStreet"@,
        HighwayClass::Service => "Service"@,
        HighwayClass::Track => "Track"@,
        HighwayClass::Road => "Road"@,
        HighwayClass::Pedestrian => "Pedestrian"@,
        HighwayClass::Footway => "Footway"@,
        HighwayClass::Cycleway => "Cycleway"@,
        HighwayClass::Path => "Path"@,
        HighwayClass::Bridleway => "Bridleway"@,
        HighwayClass::Ferry => "Ferry"@,
    }
}

/// Looking up the name of a highway class gives back that class.
pub proof fn lemma_highway_name_roundtrip(h: HighwayClass)
    ensures
        highway_from_name_spec(highway_name_spec(h)) == Some(h),
{
    match h {
        HighwayClass::Unknown => {
            reveal_strlit("unknown");
        },
        HighwayClass::Motorway => {
            reveal_strlit("motorway");
            reveal_strlit("unknown");
            assert("unknown"@.len() != "motorway"@.len());
        },
        HighwayClass::Trunk => {
            reveal_strlit("trunk");
            reveal_strlit("unknown");
            assert("unknown"@.len() != "trunk"@.len());
            reveal_strlit("motorway");
            assert("motorway"@.len() != "trunk"@.len());
        },
        HighwayClass::Primary => {
            reveal_strlit("primary");
            reveal_strlit("unknown");
            assert("unknown"@[0] != "primary"@[0]);
            reveal_strlit("motorway");
            assert("motorway"@.len() != "primary"@.len());
            reveal_strlit("trunk");
            assert("trunk"@.len() != "primary"@.len());
        },
        HighwayClass::Secondary => {
            reveal_strlit("secondary");
            reveal_strlit("unknown");
            assert("unknown"@.len() != "secondary"@.len());
            reveal_strlit("motorway");
            assert("motorway"@.len() != "secondary"@.len());
            reveal_strlit("trunk");
            assert("trunk"@.len() != "secondary"@.len());
            reveal_strlit("primary");
            assert("primary"@.len() != "secondary"@.len());
        },
        HighwayClass::Tertiary => {
            reveal_strlit("tertiary");
            reveal_strlit("unknown");
            assert("unknown"@.len() != "tertiary"@.len());
            reveal_strlit("motorway");
            assert("motorway"@[0] != "tertiary"@[0]);
            reveal_strlit("trunk");
            assert("trunk"@.len() != "tertiary"@.len());
            reveal_strlit("primary");
            assert("primary"@.len() != "tertiary"@.len());
            reveal_strlit("secondary");
            assert("secondary"@.len() != "tertiary"@.len());
        },
        HighwayClass::MotorwayLink => {
            reveal_strlit("motorway_link");
            reveal_strlit("unknown");
            assert("unknown"@.len() != "motorway_link"@.len());
            reveal_strlit("motorway");
            assert("motorway"@.len() != "motorway_link"@.len());
            reveal_strlit("trunk");
            assert("trunk"@.len() != "motorway_link"@.len());
            reveal_strlit("primary");
            assert("primary"@.len() != "motorway_link"@.len());
            reveal_strlit("secondary");
            assert("secondary"@.len() != "motorway_link"@.len());
            reveal_strlit("tertiary");
            assert("tertiary"@.len() != "motorway_link"@.len());
        },
        HighwayClass::TrunkLink => {
            reveal_strlit("trunk_link");
            reveal_strlit("unknown");
            assert("unknown"@.len() != "trunk_link"@.len());
            reveal_strlit("motorway");
            assert("motorway"@.len() != "trunk_link"@.len());
            reveal_strlit("trunk");
            assert("trunk"@.len() != "trunk_link"@.len());
            reveal_strlit("primary");
            assert("primary"@.len() != "trunk_link"@.len());
            reveal_strlit("secondary");
            assert("secondary"@.len() != "trunk_link"@.len());
            reveal_strlit("tertiary");
            assert("tertiary"@.len() != "trunk_link"@.len());
            reveal_strlit("motorway_link");
            assert("motorway_link"@.len() != "trunk_link"@.len());
        },
        HighwayClass::PrimaryLink => {
            reveal_strlit("primary_link");
            reveal_strlit("unknown");
            assert("unknown"@.len() != "primary_link"@.len());
            reveal_strlit("motorway");
            assert("motorway"@.len() != "primary_link"@.len());
            reveal_strlit("trunk");
            assert("trunk"@.len() != "primary_link"@.len());
            reveal_strlit("primary");
            assert("primary"@.len() != "primary_link"@.len());
            reveal_strlit("secondary");
            assert("secondary"@.len() != "primary_link"@.len());
            reveal_strlit("tertiary");
            assert("tertiary"@.len() != "primary_link"@.len());
            reveal_strlit("motorway_link");
            assert("motorway_link"@.len() != "primary_link"@.len());
            reveal_strlit("trunk_link");
            assert("trunk_link"@.len() != "primary_link"@.len());
        },
        HighwayClass::SecondaryLink => {
            reveal_strlit("secondary_link");
            reveal_strlit("unknown");
            assert("unknown"@.len() != "secondary_link"@.len());
            reveal_strlit("motorway");
            assert("motorway"@.len() != "secondary_link"@.len());
            reveal_strlit("trunk");
            assert("trunk"@.len() != "secondary_link"@.len());
            reveal_strlit("primary");
            assert("primary"@.len() != "secondary_link"@.len());
            reveal_strlit("secondary");
            assert("secondary"@.len() != "secondary_link"@.len());
            reveal_strlit("tertiary");
            assert("tertiary"@.len() != "secondary_link"@.len());
            reveal_strlit("motorway_link");
            assert("motorway_link"@.len() != "secondary_link"@.len());
            reveal_strlit("trunk_link");
            assert("trunk_link"@.len() != "secondary_link"@.len());
            reveal_strlit("primary_link");
            assert("primary_link"@.len() != "secondary_link"@.len());
        },
        HighwayClass::TertiaryLink => {
            reveal_strlit("tertiary_link");
            reveal_strlit("unknown");
            assert("unknown"@.len() != "tertiary_link"@.len());
            reveal_strlit("motorway");
            assert("motorway"@.len() != "tertiary_link"@.len());
            reveal_strlit("trunk");
            assert("trunk"@.len() != "tertiary_link"@.len());
            reveal_strlit("primary");
            assert("primary"@.len() != "tertiary_link"@.len());
            reveal_strlit("secondary");
            assert("secondary"@.len() != "tertiary_link"@.len());
            reveal_strlit("tertiary");
            assert("tertiary"@.len() != "tertiary_link"@.len());
            reveal_strlit("motorway_link");
            assert("motorway_link"@[0] != "tertiary_link"@[0]);
            reveal_strlit("trunk_link");
            assert("trunk_link"@.len() != "tertiary_link"@.len());
            reveal_strlit("primary_link");
            assert("primary_link"@.len() != "tertiary_link"@.len());
            reveal_strlit("secondary_link");
            assert("secondary_link"@.len() != "tertiary_link"@.len());
        },
        HighwayClass::Unclassified => {
            reveal_strlit("unclassified");
            reveal_strlit("unknown");
            assert("unknown"@.len() != "unclassified"@.len());
            reveal_strlit("motorway");
            assert("motorway"@.len() != "unclassified"@.len());
            reveal_strlit("trunk");
            assert("trunk"@.len() != "unclassified"@.len());
            reveal_strlit("primary");
            assert("primary"@.len() != "unclassified"@.len());
            reveal_strlit("secondary");
            assert("secondary"@.len() != "unclassified"@.len());
            reveal_strlit("tertiary");
            assert("tertiary"@.len() != "unclassified"@.len());
            reveal_strlit("motorway_link");
            assert("motorway_link"@.len() != "unclassified"@.len());
            reveal_strlit("trunk_link");
            assert("trunk_link"@.len() != "unclassified"@.len());
            reveal_strlit("primary_link");
            assert("primary_link"@[0] != "unclassified"@[0]);
            reveal_strlit("secondary_link");
            assert("secondary_link"@.len() != "unclassified"@.len());
            reveal_strlit("tertiary_link");
            assert("tertiary_link"@.len() != "unclassified"@.len());
        },
        HighwayClass::Residential => {
            reveal_strlit("residential");
            reveal_strlit("unknown");
            assert("unknown"@.len() != "residential"@.len());
            reveal_strlit("motorway");
            assert("motorway"@.len() != "residential"@.len());
            reveal_strlit("trunk");
            assert("trunk"@.len() != "residential"@.len());
            reveal_strlit("primary");
            assert("primary"@.len() != "residential"@.len());
            reveal_strlit("secondary");
            assert("secondary"@.len() != "residential"@.len());
            reveal_strlit("tertiary");
            assert("tertiary"@.len() != "residential"@.len());
            reveal_strlit("motorway_link");
            assert("motorway_link"@.len() != "residential"@.len());
            reveal_strlit("trunk_link");
            assert("trunk_link"@.len() != "residential"@.len());
            reveal_strlit("primary_link");
            assert("primary_link"@.len() != "residential"@.len());
            reveal_strlit("secondary_link");
            assert("secondary_link"@.len() != "residential"@.len());
            reveal_strlit("tertiary_link");
            assert("tertiary_link"@.len() != "residential"@.len());
            reveal_strlit("unclassified");
            assert("unclassified"@.len() != "residential"@.len());
        },
        HighwayClass::LivingStreet => {
            reveal_strlit("living_street");
            reveal_strlit("unknown");
            assert("unknown"@.len() != "living_street"@.len());
            reveal_strlit("motorway");
            assert("motorway"@.len() != "living_street"@.len());
            reveal_strlit("trunk");
            assert("trunk"@.len() != "living_street"@.len());
            reveal_strlit("primary");
            assert("primary"@.len() != "living_street"@.len());
            reveal_strlit("secondary");
            assert("secondary"@.len() != "living_street"@.len());
            reveal_strlit("tertiary");
            assert("tertiary"@.len() != "living_street"@.len());
            reveal_strlit("motorway_link");
            assert("motorway_link"@[0] != "living_street"@[0]);
            reveal_strlit("trunk_link");
            assert("trunk_link"@.len() != "living_street"@.len());
            reveal_strlit("primary_link");
            assert("primary_link"@.len() != "living_street"@.len());
            reveal_strlit("secondary_link");
            assert("secondary_link"@.len() != "living_street"@.len());
            reveal_strlit("tertiary_link");
            assert("tertiary_link"@[0] != "living_street"@[0]);
            reveal_strlit("unclassified");
            assert("unclassified"@.len() != "living_street"@.len());
            reveal_strlit("residential");
            assert("residential"@.len() != "living_street"@.len());
        },
        HighwayClass::Service => {
            reveal_strlit("service");
            reveal_strlit("unknown");
            assert("unknown"@[0] != "service"@[0]);
            reveal_strlit("motorway");
            assert("motorway"@.len() != "service"@.len());
            reveal_strlit("trunk");
            assert("trunk"@.len() != "service"@.len());
            reveal_strlit("primary");
            assert("primary"@[0] != "service"@[0]);
            reveal_strlit("secondary");
            assert("secondary"@.len() != "service"@.len());
            reveal_strlit("tertiary");
            assert("tertiary"@.len() != "service"@.len());
            reveal_strlit("motorway_link");
            assert("motorway_link"@.len() != "service"@.len());
            reveal_strlit("trunk_link");
            assert("trunk_link"@.len() != "service"@.len());
            reveal_strlit("primary_link");
            assert("primary_link"@.len() != "service"@.len());
            reveal_strlit("secondary_link");
            assert("secondary_link"@.len() != "service"@.len());
            reveal_strlit("tertiary_link");
            assert("tertiary_link"@.len() != "service"@.len());
            reveal_strlit("unclassified");
            assert("unclassified"@.len() != "service"@.len());
            reveal_strlit("residential");
            assert("residential"@.len() != "service"@.len());
            reveal_strlit("living_street");
            assert("living_street"@.len() != "service"@.len());
        },
        HighwayClass::Track => {
            reveal_strlit("track");
            reveal_strlit("unknown");
            assert("unknown"@.len() != "track"@.len());
            reveal_strlit("motorway");
            assert("motorway"@.len() != "track"@.len());
            reveal_strlit("trunk");
            assert("trunk"@[2] != "track"@[2]);
            reveal_strlit("primary");
            assert("primary"@.len() != "track"@.len());
            reveal_strlit("secondary");
            assert("secondary"@.len() != "track"@.len());
            reveal_strlit("tertiary");
            assert("tertiary"@.len() != "track"@.len());
            reveal_strlit("motorway_link");
            assert("motorway_link"@.len() != "track"@.len());
            reveal_strlit("trunk_link");
            assert("trunk_link"@.len() != "track"@.len());
            reveal_strlit("primary_link");
            assert("primary_link"@.len() != "track"@.len());
            reveal_strlit("secondary_link");
            assert("secondary_link"@.len() != "track"@.len());
            reveal_strlit("tertiary_link");
            assert("tertiary_link"@.len() != "track"@.len());
            reveal_strlit("unclassified");
            assert("unclassified"@.len() != "track"@.len());
            reveal_strlit("residential");
            assert("residential"@.len() != "track"@.len());
            reveal_strlit("living_street");
            assert("living_street"@.len() != "track"@.len());
            reveal_strlit("service");
            assert("service"@.len() != "track"@.len());
        },
        HighwayClass::Road => {
            reveal_strlit("road");
            reveal_strlit("unknown");
            assert("unknown"@.len() != "road"@.len());
            reveal_strlit("motorway");
            assert("motorway"@.len() != "road"@.len());
            reveal_strlit("trunk");
            assert("trunk"@.len() != "road"@.len());
            reveal_strlit("primary");
            assert("primary"@.len() != "road"@.len());
            reveal_strlit("secondary");
            assert("secondary"@.len() != "road"@.len());
            reveal_strlit("tertiary");
            assert("tertiary"@.len() != "road"@.len());
            reveal_strlit("motorway_link");
            assert("motorway_link"@.len() != "road"@.len());
            reveal_strlit("trunk_link");
            assert("trunk_link"@.len() != "road"@.len());
            reveal_strlit("primary_link");
            assert("primary_link"@.len() != "road"@.len());
            reveal_strlit("secondary_link");
            assert("secondary_link"@.len() != "road"@.len());
            reveal_strlit("tertiary_link");
            assert("tertiary_link"@.len() != "road"@.len());
            reveal_strlit("unclassified");
            assert("unclassified"@.len() != "road"@.len());
            reveal_strlit("residential");
            assert("residential"@.len() != "road"@.len());
            reveal_strlit("living_street");
            assert("living_street"@.len() != "road"@.len());
            reveal_strlit("service");
            assert("service"@.len() != "road"@.len());
            reveal_strlit("track");
            assert("track"@.len() != "road"@.len());
        },
        HighwayClass::Pedestrian => {
            reveal_strlit("pedestrian");
            reveal_strlit("unknown");
            assert("unknown"@.len() != "pedestrian"@.len());
            reveal_strlit("motorway");
            assert("motorway"@.len() != "pedestrian"@.len());
            reveal_strlit("trunk");
            assert("trunk"@.len() != "pedestrian"@.len());
            reveal_strlit("primary");
            assert("primary"@.len() != "pedestrian"@.len());
            reveal_strlit("secondary");
            assert("secondary"@.len() != "pedestrian"@.len());
            reveal_strlit("tertiary");
            assert("tertiary"@.len() != "pedestrian"@.len());
            reveal_strlit("motorway_link");
            assert("motorway_link"@.len() != "pedestrian"@.len());
            reveal_strlit("trunk_link");
            assert("trunk_link"@[0] != "pedestrian"@[0]);
            reveal_strlit("primary_link");
            assert("primary_link"@.len() != "pedestrian"@.len());
            reveal_strlit("secondary_link");
            assert("secondary_link"@.len() != "pedestrian"@.len());
            reveal_strlit("tertiary_link");
            assert("tertiary_link"@.len() != "pedestrian"@.len());
            reveal_strlit("unclassified");
            assert("unclassified"@.len() != "pedestrian"@.len());
            reveal_strlit("residential");
            assert("residential"@.len() != "pedestrian"@.len());
            reveal_strlit("living_street");
            assert("living_street"@.len() != "pedestrian"@.len());
            reveal_strlit("service");
            assert("service"@.len() != "pedestrian"@.len());
            reveal_strlit("track");
            assert("track"@.len() != "pedestrian"@.len());
            reveal_strlit("road");
            assert("road"@.len() != "pedestrian"@.len());
        },
        HighwayClass::Footway => {
            reveal_strlit("footway");
            reveal_strlit("unknown");
            assert("unknown"@[0] != "footway"@[0]);
            reveal_strlit("motorway");
            assert("motorway"@.len() != "footway"@.len());
            reveal_strlit("trunk");
            assert("trunk"@.len() != "footway"@.len());
            reveal_strlit("primary");
            assert("primary"@[0] != "footway"@[0]);
            reveal_strlit("secondary");
            assert("secondary"@.len() != "footway"@.len());
            reveal_strlit("tertiary");
            assert("tertiary"@.len() != "footway"@.len());
            reveal_strlit("motorway_link");
            assert("motorway_link"@.len() != "footway"@.len());
            reveal_strlit("trunk_link");
            assert("trunk_link"@.len() != "footway"@.len());
            reveal_strlit("primary_link");
            assert("primary_link"@.len() != "footway"@.len());
            reveal_strlit("secondary_link");
            assert("secondary_link"@.len() != "footway"@.len());
            reveal_strlit("tertiary_link");
            assert("tertiary_link"@.len() != "footway"@.len());
            reveal_strlit("unclassified");
            assert("unclassified"@.len() != "footway"@.len());
            reveal_strlit("residential");
            assert("residential"@.len() != "footway"@.len());
            reveal_strlit("living_street");
            assert("living_street"@.len() != "footway"@.len());
            reveal_strlit("service");
            assert("service"@[0] != "footway"@[0]);
            reveal_strlit("track");
            assert("track"@.len() != "footway"@.len());
            reveal_strlit("road");
            assert("road"@.len() != "footway"@.len());
            reveal_strlit("pedestrian");
            assert("pedestrian"@.len() != "footway"@.len());
        },
        HighwayClass::Cycleway => {
            reveal_strlit("cycleway");
            reveal_strlit("unknown");
            assert("unknown"@.len() != "cycleway"@.len());
            reveal_strlit("motorway");
            assert("motorway"@[0] != "cycleway"@[0]);
            reveal_strlit("trunk");
            assert("trunk"@.len() != "cycleway"@.len());
            reveal_strlit("primary");
            assert("primary"@.len() != "cycleway"@.len());
            reveal_strlit("secondary");
            assert("secondary"@.len() != "cycleway"@.len());
            reveal_strlit("tertiary");
            assert("tertiary"@[0] != "cycleway"@[0]);
            reveal_strlit("motorway_link");
            assert("motorway_link"@.len() != "cycleway"@.len());
            reveal_strlit("trunk_link");
            assert("trunk_link"@.len() != "cycleway"@.len());
            reveal_strlit("primary_link");
            assert("primary_link"@.len() != "cycleway"@.len());
            reveal_strlit("secondary_link");
            assert("secondary_link"@.len() != "cycleway"@.len());
            reveal_strlit("tertiary_link");
            assert("tertiary_link"@.len() != "cycleway"@.len());
            reveal_strlit("unclassified");
            assert("unclassified"@.len() != "cycleway"@.len());
            reveal_strlit("residential");
            assert("residential"@.len() != "cycleway"@.len());
            reveal_strlit("living_street");
            assert("living_street"@.len() != "cycleway"@.len());
            reveal_strlit("service");
            assert("service"@.len() != "cycleway"@.len());
            reveal_strlit("track");
            assert("track"@.len() != "cycleway"@.len());
            reveal_strlit("road");
            assert("road"@.len() != "cycleway"@.len());
            reveal_strlit("pedestrian");
            assert("pedestrian"@.len() != "cycleway"@.len());
            reveal_strlit("footway");
            assert("footway"@.len() != "cycleway"@.len());
        },
        HighwayClass::Path => {
            reveal_strlit("path");
            reveal_strlit("unknown");
            assert("unknown"@.len() != "path"@.len());
            reveal_strlit("motorway");
            assert("motorway"@.len() != "path"@.len());
            reveal_strlit("trunk");
            assert("trunk"@.len() != "path"@.len());
            reveal_strlit("primary");
            assert("primary"@.len() != "path"@.len());
            reveal_strlit("secondary");
            assert("secondary"@.len() != "path"@.len());
            reveal_strlit("tertiary");
            assert("tertiary"@.len() != "path"@.len());
            reveal_strlit("motorway_link");
            assert("motorway_link"@.len() != "path"@.len());
            reveal_strlit("trunk_link");
            assert("trunk_link"@.len() != "path"@.len());
            reveal_strlit("primary_link");
            assert("primary_link"@.len() != "path"@.len());
            reveal_strlit("secondary_link");
            assert("secondary_link"@.len() != "path"@.len());
            reveal_strlit("tertiary_link");
            assert("tertiary_link"@.len() != "path"@.len());
            reveal_strlit("unclassified");
            assert("unclassified"@.len() != "path"@.len());
            reveal_strlit("residential");
            assert("residential"@.len() != "path"@.len());
            reveal_strlit("living_street");
            assert("living_street"@.len() != "path"@.len());
            reveal_strlit("service");
            assert("service"@.len() != "path"@.len());
            reveal_strlit("track");
            assert("track"@.len() != "path"@.len());
            reveal_strlit("road");
            assert("road"@[0] != "path"@[0]);
            reveal_strlit("pedestrian");
            assert("pedestrian"@.len() != "path"@.len());
            reveal_strlit("footway");
            assert("footway"@.len() != "path"@.len());
            reveal_strlit("cycleway");
            assert("cycleway"@.len() != "path"@.len());
        },
        HighwayClass::Bridleway => {
            reveal_strlit("bridleway");
            reveal_strlit("unknown");
            assert("unknown"@.len() != "bridleway"@.len());
            reveal_strlit("motorway");
            assert("motorway"@.len() != "bridleway"@.len());
            reveal_strlit("trunk");
            assert("trunk"@.len() != "bridleway"@.len());
            reveal_strlit("primary");
            assert("primary"@.len() != "bridleway"@.len());
            reveal_strlit("secondary");
            assert("secondary"@[0] != "bridleway"@[0]);
            reveal_strlit("tertiary");
            assert("tertiary"@.len() != "bridleway"@.len());
            reveal_strlit("motorway_link");
            assert("motorway_link"@.len() != "bridleway"@.len());
            reveal_strlit("trunk_link");
            assert("trunk_link"@.len() != "bridleway"@.len());
            reveal_strlit("primary_link");
            assert("primary_link"@.len() != "bridleway"@.len());
            reveal_strlit("secondary_link");
            assert("secondary_link"@.len() != "bridleway"@.len());
            reveal_strlit("tertiary_link");
            assert("tertiary_link"@.len() != "bridleway"@.len());
            reveal_strlit("unclassified");
            assert("unclassified"@.len() != "bridleway"@.len());
            reveal_strlit("residential");
            assert("residential"@.len() != "bridleway"@.len());
            reveal_strlit("living_street");
            assert("living_street"@.len() != "bridleway"@.len());
            reveal_strlit("service");
            assert("service"@.len() != "bridleway"@.len());
            reveal_strlit("track");
            assert("track"@.len() != "bridleway"@.len());
            reveal_strlit("road");
            assert("road"@.len() != "bridleway"@.len());
            reveal_strlit("pedestrian");
            assert("pedestrian"@.len() != "bridleway"@.len());
            reveal_strlit("footway");
            assert("footway"@.len() != "bridleway"@.len());
            reveal_strlit("cycleway");
            assert("cycleway"@.len() != "bridleway"@.len());
            reveal_strlit("path");
            assert("path"@.len() != "bridleway"@.len());
        },
        HighwayClass::Ferry => {
            reveal_strlit("ferry");
            reveal_strlit("unknown");
            assert("unknown"@.len() != "ferry"@.len());
            reveal_strlit("motorway");
            assert("motorway"@.len() != "ferry"@.len());
            reveal_strlit("trunk");
            assert("trunk"@[0] != "ferry"@[0]);
            reveal_strlit("primary");
            assert("primary"@.len() != "ferry"@.len());
            reveal_strlit("secondary");
            assert("secondary"@.len() != "ferry"@.len());
            reveal_strlit("tertiary");
            assert("tertiary"@.len() != "ferry"@.len());
            reveal_strlit("motorway_link");
            assert("motorway_link"@.len() != "ferry"@.len());
            reveal_strlit("trunk_link");
            assert("trunk_link"@.len() != "ferry"@.len());
            reveal_strlit("primary_link");
            assert("primary_link"@.len() != "ferry"@.len());
            reveal_strlit("secondary_link");
            assert("secondary_link"@.len() != "ferry"@.len());
            reveal_strlit("tertiary_link");
            assert("tertiary_link"@.len() != "ferry"@.len());
            reveal_strlit("unclassified");
            assert("unclassified"@.len() != "ferry"@.len());
            reveal_strlit("residential");
            assert("residential"@.len() != "ferry"@.len());
            reveal_strlit("living_street");
            assert("living_street"@.len() != "ferry"@.len());
            reveal_strlit("service");
            assert("service"@.len() != "ferry"@.len());
            reveal_strlit("track");
            assert("track"@[0] != "ferry"@[0]);
            reveal_strlit("road");
            assert("road"@.len() != "ferry"@.len());
            reveal_strlit("pedestrian");
            assert("pedestrian"@.len() != "ferry"@.len());
            reveal_strlit("footway");
            assert("footway"@.len() != "ferry"@.len());
            reveal_strlit("cycleway");
            assert("cycleway"@.len() != "ferry"@.len());
            reveal_strlit("path");
            assert("path"@.len() != "ferry"@.len());
            reveal_strlit("bridleway");
            assert("bridleway"@.len() != "ferry"@.len());
        },
    }
}

/// Road surface quality tier, derived from OSM `surface`, `smoothness` and `tracktype` tags.
#[derive(Copy, Clone, Debug, Default, PartialEq, Eq, Structural)]
pub enum SurfaceQuality {
    #[default]
    Unknown,
    Excellent,
    Good,
    Intermediate,
    Bad,
    VeryBad,
    Horrible,
    Impassable,
}

/// Number of `SurfaceQuality` variants: the length of `surface_pct` arrays in profiles.
pub const SURFACE_QUALITY_COUNT: usize = 8;

impl SurfaceQuality {
    /// The position of the variant in declaration order.
    pub open spec fn index_spec(self) -> nat {
        match self {
            SurfaceQuality::Unknown => 0,
            SurfaceQuality::Excellent => 1,
            SurfaceQuality::Good => 2,
            SurfaceQuality::Intermediate => 3,
            SurfaceQuality::Bad => 4,
            SurfaceQuality::VeryBad => 5,
            SurfaceQuality::Horrible => 6,
            SurfaceQuality::Impassable => 7,
        }
    }

    /// The position of the variant in declaration order (its discriminant).
    pub fn index(self) -> (r: usize)
        ensures
            r == self.index_spec(),
            r < SURFACE_QUALITY_COUNT,
    {
        match self {
            SurfaceQuality::Unknown => 0,
            SurfaceQuality::Excellent => 1,
            SurfaceQuality::Good => 2,
            SurfaceQuality::Intermediate => 3,
            SurfaceQuality::Bad => 4,
            SurfaceQuality::VeryBad => 5,
            SurfaceQuality::Horrible => 6,
            SurfaceQuality::Impassable => 7,
        }
    }

    /// The name of the variant as written in Rust.
    pub fn variant_name(self) -> (r: &'static str)
        ensures
            r@ == surface_variant_name_spec(self),
    {
        match self {
            SurfaceQuality::Unknown => "Unknown",
            SurfaceQuality::Excellent => "Excellent",
            SurfaceQuality::Good => "Good",
            SurfaceQuality::Intermediate => "Intermediate",
            SurfaceQuality::Bad => "Bad",
            SurfaceQuality::VeryBad => "VeryBad",
            SurfaceQuality::Horrible => "Horrible",
            SurfaceQuality::Impassable => "Impassable",
        }
    }
}

/// The name of the variant as written in Rust.
pub open spec fn surface_variant_name_spec(q: SurfaceQuality) -> Seq<char> {
    match q {
        SurfaceQuality::Unknown => "Unknown"@,
        SurfaceQuality::Excellent => "Excellent"@,
        SurfaceQuality::Good => "Good"@,
        SurfaceQuality::Intermediate => "Intermediate"@,
        SurfaceQuality::Bad => "Bad"@,
        SurfaceQuality::VeryBad => "VeryBad"@,
        SurfaceQuality::Horrible => "Horrible"@,
        SurfaceQuality::Impassable => "Impassable"@,
    }
}

} // verus!
