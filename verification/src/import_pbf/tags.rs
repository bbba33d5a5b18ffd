//! OSM tags as the importer reads them: tag values parsed into enums, access
//! and oneway tags that may depend on mode, direction and condition, and the
//! tags of ways and nodes that routing needs.

use std::collections::HashMap;
use vstd::prelude::*;
use vstd::string::StrSliceExecFns;

use crate::text::{
    ends_with, split_char, split_once_char, split_spec, str_eq, strip_suffix_str, trim, trim_end,
    trim_end_spec, trim_spec, trim_start, trim_start_spec,
};

verus! {

/// Parsing a tag value.
pub trait FromTag: Sized {
    /// The value a tag value `v` stands for.
    spec fn from_tag_spec(v: Seq<char>) -> Self;

    fn from_tag(v: &str) -> (r: Self)
        ensures
            r == Self::from_tag_spec(v@),
    ;
}

impl FromTag for bool {
    open spec fn from_tag_spec(v: Seq<char>) -> Self {
        !(v == "no"@ || v == "false"@ || v == "unknown"@)
    }

    fn from_tag(v: &str) -> (r: Self) {
        !(str_eq(v, "no") || str_eq(v, "false") || str_eq(v, "unknown"))
    }
}

impl<T: FromTag> FromTag for Option<T> {
    open spec fn from_tag_spec(v: Seq<char>) -> Self {
        Some(T::from_tag_spec(v))
    }

    fn from_tag(v: &str) -> (r: Self) {
        Some(T::from_tag(v))
    }
}

/// A value of an `access` tag or of a mode-specific access tag.
#[allow(non_camel_case_types)]
#[derive(Copy, Clone, Debug, PartialEq, Eq, Structural)]
pub enum Access {
    yes,
    no,
    permissive,
    permit,
    destination,
    delivery,
    customers,
    designated,
    use_sidepath,
    dismount,
    agricultural,
    forestry,
    residents,
    military,
    emergency,
    unknown,
}

/// The `Access` a tag value names; `unknown` for any other value.
pub open spec fn access_from_tag_spec(v: Seq<char>) -> Access {
    if v == "yes"@ || v == "public"@ {
        Access::yes
    } else if v == "no"@ || v == "private"@ || v == "discouraged"@ || v == "disabled"@ {
        Access::no
    } else if v == "permissive"@ {
        Access::permissive
    } else if v == "permit"@ {
        Access::permit
    } else if v == "destination"@ {
        Access::destination
    } else if v == "delivery"@ {
        Access::delivery
    } else if v == "customers"@ || v == "visitors"@ {
        Access::customers
    } else if v == "designated"@ || v == "official"@ {
        Access::designated
    } else if v == "use_sidepath"@ {
        Access::use_sidepath
    } else if v == "dismount"@ {
        Access::dismount
    } else if v == "agricultural"@ {
        Access::agricultural
    } else if v == "forestry"@ {
        Access::forestry
    } else if v == "residents"@ || v == "employees"@ || v == "students"@ || v == "university"@ || v == "members"@ || v == "staff"@ {
        Access::residents
    } else if v == "military"@ {
        Access::military
    } else if v == "emergency"@ {
        Access::emergency
    } else {
        Access::unknown
    }
}

impl FromTag for Access {
    open spec fn from_tag_spec(v: Seq<char>) -> Self {
        access_from_tag_spec(v)
    }

    fn from_tag(v: &str) -> (r: Self) {
        if str_eq(v, "yes") || str_eq(v, "public") {
            Access::yes
        } else if str_eq(v, "no") || str_eq(v, "private") || str_eq(v, "discouraged") || str_eq(v, "disabled") {
            Access::no
        } else if str_eq(v, "permissive") {
            Access::permissive
        } else if str_eq(v, "permit") {
            Access::permit
        } else if str_eq(v, "destination") {
            Access::destination
        } else if str_eq(v, "delivery") {
            Access::delivery
        } else if str_eq(v, "customers") || str_eq(v, "visitors") {
            Access::customers
        } else if str_eq(v, "designated") || str_eq(v, "official") {
            Access::designated
        } else if str_eq(v, "use_sidepath") {
            Access::use_sidepath
        } else if str_eq(v, "dismount") {
            Access::dismount
        } else if str_eq(v, "agricultural") {
            Access::agricultural
        } else if str_eq(v, "forestry") {
            Access::forestry
        } else if str_eq(v, "residents") || str_eq(v, "employees") || str_eq(v, "students") || str_eq(v, "university") || str_eq(v, "members") || str_eq(v, "staff") {
            Access::residents
        } else if str_eq(v, "military") {
            Access::military
        } else if str_eq(v, "emergency") {
            Access::emergency
        } else {
            Access::unknown
        }
    }
}

impl Default for Access {
    fn default() -> (r: Self)
        ensures
            r == Access::yes,
    {
        Access::yes
    }
}

/// A value of a way's `highway` tag.
#[allow(non_camel_case_types)]
#[derive(Copy, Clone, Debug, PartialEq, Eq, Structural)]
pub enum Highway {
    motorway,
    trunk,
    primary,
    secondary,
    tertiary,
    motorway_link,
    trunk_link,
    primary_link,
    secondary_link,
    tertiary_link,
    unclassified,
    residential,
    pedestrian,
    living_street,
    service,
    track,
    road,
    busway,
    footway,
    bridleway,
    path,
    cycleway,
    no,
    unknown,
}

/// The `Highway` a tag value names; `unknown` for any other value.
pub open spec fn highway_from_tag_spec(v: Seq<char>) -> Highway {
    if v == "motorway"@ {
        Highway::motorway
    } else if v == "trunk"@ {
        Highway::trunk
    } else if v == "primary"@ {
        Highway::primary
    } else if v == "secondary"@ {
        Highway::secondary
    } else if v == "tertiary"@ {
        Highway::tertiary
    } else if v == "motorway_link"@ {
        Highway::motorway_link
    } else if v == "trunk_link"@ {
        Highway::trunk_link
    } else if v == "primary_link"@ {
        Highway::primary_link
    } else if v == "secondary_link"@ {
        Highway::secondary_link
    } else if v == "tertiary_link"@ {
        Highway::tertiary_link
    } else if v == "unclassified"@ {
        Highway::unclassified
    } else if v == "residential"@ {
        Highway::residential
    } else if v == "pedestrian"@ || v == "crossing"@ || v == "steps"@ {
        Highway::pedestrian
    } else if v == "living_street"@ {
        Highway::living_street
    } else if v == "service"@ {
        Highway::service
    } else if v == "track"@ {
        Highway::track
    } else if v == "road"@ {
        Highway::road
    } else if v == "busway"@ || v == "platform"@ {
        Highway::busway
    } else if v == "footway"@ {
        Highway::footway
    } else if v == "bridleway"@ {
        Highway::bridleway
    } else if v == "path"@ {
        Highway::path
    } else if v == "cycleway"@ {
        Highway::cycleway
    } else if v == "no"@ || v == "construction"@ || v == "proposed"@ || v == "emergency_bay"@ || v == "corridor"@ || v == "raceway"@ || v == "via_ferrata"@ || v == "abandoned"@ || v == "disused"@ || v == "escape"@ || v == "bus_guideway"@ {
        Highway::no
    } else {
        Highway::unknown
    }
}

impl FromTag for Highway {
    open spec fn from_tag_spec(v: Seq<char>) -> Self {
        highway_from_tag_spec(v)
    }

    fn from_tag(v: &str) -> (r: Self) {
        if str_eq(v, "motorway") {
            Highway::motorway
        } else if str_eq(v, "trunk") {
            Highway::trunk
        } else if str_eq(v, "primary") {
            Highway::primary
        } else if str_eq(v, "secondary") {
            Highway::secondary
        } else if str_eq(v, "tertiary") {
            Highway::tertiary
        } else if str_eq(v, "motorway_link") {
            Highway::motorway_link
        } else if str_eq(v, "trunk_link") {
            Highway::trunk_link
        } else if str_eq(v, "primary_link") {
            Highway::primary_link
        } else if str_eq(v, "secondary_link") {
            Highway::secondary_link
        } else if str_eq(v, "tertiary_link") {
            Highway::tertiary_link
        } else if str_eq(v, "unclassified") {
            Highway::unclassified
        } else if str_eq(v, "residential") {
            Highway::residential
        } else if str_eq(v, "pedestrian") || str_eq(v, "crossing") || str_eq(v, "steps") {
            Highway::pedestrian
        } else if str_eq(v, "living_street") {
            Highway::living_street
        } else if str_eq(v, "service") {
            Highway::service
        } else if str_eq(v, "track") {
            Highway::track
        } else if str_eq(v, "road") {
            Highway::road
        } else if str_eq(v, "busway") || str_eq(v, "platform") {
            Highway::busway
        } else if str_eq(v, "footway") {
            Highway::footway
        } else if str_eq(v, "bridleway") {
            Highway::bridleway
        } else if str_eq(v, "path") {
            Highway::path
        } else if str_eq(v, "cycleway") {
            Highway::cycleway
        } else if str_eq(v, "no") || str_eq(v, "construction") || str_eq(v, "proposed") || str_eq(v, "emergency_bay") || str_eq(v, "corridor") || str_eq(v, "raceway") || str_eq(v, "via_ferrata") || str_eq(v, "abandoned") || str_eq(v, "disused") || str_eq(v, "escape") || str_eq(v, "bus_guideway") {
            Highway::no
        } else {
            Highway::unknown
        }
    }
}

/// A value of a `smoothness` tag.
#[allow(non_camel_case_types)]
#[derive(Copy, Clone, Debug, PartialEq, Eq, Structural)]
pub enum Smoothness {
    excellent,
    good,
    intermediate,
    bad,
    very_bad,
    horrible,
    very_horrible,
    impassable,
    unknown,
}

/// The `Smoothness` a tag value names; `unknown` for any other value.
pub open spec fn smoothness_from_tag_spec(v: Seq<char>) -> Smoothness {
    if v == "excellent"@ {
        Smoothness::excellent
    } else if v == "good"@ {
        Smoothness::good
    } else if v == "intermediate"@ {
        Smoothness::intermediate
    } else if v == "bad"@ {
        Smoothness::bad
    } else if v == "very_bad"@ {
        Smoothness::very_bad
    } else if v == "horrible"@ {
        Smoothness::horrible
    } else if v == "very_horrible"@ {
        Smoothness::very_horrible
    } else if v == "impassable"@ {
        Smoothness::impassable
    } else {
        Smoothness::unknown
    }
}

impl FromTag for Smoothness {
    open spec fn from_tag_spec(v: Seq<char>) -> Self {
        smoothness_from_tag_spec(v)
    }

    fn from_tag(v: &str) -> (r: Self) {
        if str_eq(v, "excellent") {
            Smoothness::excellent
        } else if str_eq(v, "good") {
            Smoothness::good
        } else if str_eq(v, "intermediate") {
            Smoothness::intermediate
        } else if str_eq(v, "bad") {
            Smoothness::bad
        } else if str_eq(v, "very_bad") {
            Smoothness::very_bad
        } else if str_eq(v, "horrible") {
            Smoothness::horrible
        } else if str_eq(v, "very_horrible") {
            Smoothness::very_horrible
        } else if str_eq(v, "impassable") {
            Smoothness::impassable
        } else {
            Smoothness::unknown
        }
    }
}

/// A value of a `tracktype` tag.
#[allow(non_camel_case_types)]
#[derive(Copy, Clone, Debug, PartialEq, Eq, Structural)]
pub enum TrackType {
    grade1,
    grade2,
    grade3,
    grade4,
    grade5,
    unknown,
}

/// The `TrackType` a tag value names; `unknown` for any other value.
pub open spec fn track_type_from_tag_spec(v: Seq<char>) -> TrackType {
    if v == "grade1"@ {
        TrackType::grade1
    } else if v == "grade2"@ {
        TrackType::grade2
    } else if v == "grade3"@ {
        TrackType::grade3
    } else if v == "grade4"@ {
        TrackType::grade4
    } else if v == "grade5"@ {
        TrackType::grade5
    } else {
        TrackType::unknown
    }
}

impl FromTag for TrackType {
    open spec fn from_tag_spec(v: Seq<char>) -> Self {
        track_type_from_tag_spec(v)
    }

    fn from_tag(v: &str) -> (r: Self) {
        if str_eq(v, "grade1") {
            TrackType::grade1
        } else if str_eq(v, "grade2") {
            TrackType::grade2
        } else if str_eq(v, "grade3") {
            TrackType::grade3
        } else if str_eq(v, "grade4") {
            TrackType::grade4
        } else if str_eq(v, "grade5") {
            TrackType::grade5
        } else {
            TrackType::unknown
        }
    }
}

/// A value of a `junction` tag.
#[allow(non_camel_case_types)]
#[derive(Copy, Clone, Debug, PartialEq, Eq, Structural)]
pub enum Junction {
    /// Roundabout — implies oneway circulation.
    roundabout,
    /// Circular road — implies oneway circulation.
    circular,
    /// US jughandle ramp — does NOT imply oneway on the junction tag alone.
    jughandle,
    /// Interchange (motorway-style split).
    interchange,
    unknown,
}

/// The `Junction` a tag value names; `unknown` for any other value.
pub open spec fn junction_from_tag_spec(v: Seq<char>) -> Junction {
    if v == "roundabout"@ {
        Junction::roundabout
    } else if v == "circular"@ {
        Junction::circular
    } else if v == "jughandle"@ {
        Junction::jughandle
    } else if v == "interchange"@ {
        Junction::interchange
    } else {
        Junction::unknown
    }
}

impl FromTag for Junction {
    open spec fn from_tag_spec(v: Seq<char>) -> Self {
        junction_from_tag_spec(v)
    }

    fn from_tag(v: &str) -> (r: Self) {
        if str_eq(v, "roundabout") {
            Junction::roundabout
        } else if str_eq(v, "circular") {
            Junction::circular
        } else if str_eq(v, "jughandle") {
            Junction::jughandle
        } else if str_eq(v, "interchange") {
            Junction::interchange
        } else {
            Junction::unknown
        }
    }
}

/// A value of a `surface` tag.
#[allow(non_camel_case_types)]
#[derive(Copy, Clone, Debug, PartialEq, Eq, Structural)]
pub enum Surface {
    paved,
    asphalt,
    concrete,
    paving_stones,
    cobblestone,
    metal,
    wood,
    stepping_stones,
    rubber,
    unpaved,
    compacted,
    gravel,
    ground,
    grass,
    sand,
    ice,
    unknown,
}

/// The `Surface` a tag value names; `unknown` for any other value.
pub open spec fn surface_from_tag_spec(v: Seq<char>) -> Surface {
    if v == "paved"@ {
        Surface::paved
    } else if v == "asphalt"@ {
        Surface::asphalt
    } else if v == "concrete"@ {
        Surface::concrete
    } else if v == "paving_stones"@ || v == "sett"@ || v == "bricks"@ {
        Surface::paving_stones
    } else if v == "cobblestone"@ || v == "unhewn_cobblestone"@ {
        Surface::cobblestone
    } else if v == "metal"@ {
        Surface::metal
    } else if v == "wood"@ {
        Surface::wood
    } else if v == "stepping_stones"@ {
        Surface::stepping_stones
    } else if v == "rubber"@ {
        Surface::rubber
    } else if v == "unpaved"@ {
        Surface::unpaved
    } else if v == "compacted"@ {
        Surface::compacted
    } else if v == "gravel"@ || v == "fine_gravel"@ || v == "shells"@ || v == "pebblestone"@ {
        Surface::gravel
    } else if v == "ground"@ || v == "dirt"@ || v == "earth"@ {
        Surface::ground
    } else if v == "grass"@ {
        Surface::grass
    } else if v == "sand"@ {
        Surface::sand
    } else if v == "ice"@ || v == "snow"@ {
        Surface::ice
    } else {
        Surface::unknown
    }
}

impl FromTag for Surface {
    open spec fn from_tag_spec(v: Seq<char>) -> Self {
        surface_from_tag_spec(v)
    }

    fn from_tag(v: &str) -> (r: Self) {
        if str_eq(v, "paved") {
            Surface::paved
        } else if str_eq(v, "asphalt") {
            Surface::asphalt
        } else if str_eq(v, "concrete") {
            Surface::concrete
        } else if str_eq(v, "paving_stones") || str_eq(v, "sett") || str_eq(v, "bricks") {
            Surface::paving_stones
        } else if str_eq(v, "cobblestone") || str_eq(v, "unhewn_cobblestone") {
            Surface::cobblestone
        } else if str_eq(v, "metal") {
            Surface::metal
        } else if str_eq(v, "wood") {
            Surface::wood
        } else if str_eq(v, "stepping_stones") {
            Surface::stepping_stones
        } else if str_eq(v, "rubber") {
            Surface::rubber
        } else if str_eq(v, "unpaved") {
            Surface::unpaved
        } else if str_eq(v, "compacted") {
            Surface::compacted
        } else if str_eq(v, "gravel") || str_eq(v, "fine_gravel") || str_eq(v, "shells") || str_eq(v, "pebblestone") {
            Surface::gravel
        } else if str_eq(v, "ground") || str_eq(v, "dirt") || str_eq(v, "earth") {
            Surface::ground
        } else if str_eq(v, "grass") {
            Surface::grass
        } else if str_eq(v, "sand") {
            Surface::sand
        } else if str_eq(v, "ice") || str_eq(v, "snow") {
            Surface::ice
        } else {
            Surface::unknown
        }
    }
}

/// A value of a `oneway` tag.
#[allow(non_camel_case_types)]
#[derive(Copy, Clone, Debug, PartialEq, Eq, Structural)]
pub enum OneWay {
    no,
    yes,
    reverse,
    alternating,
    unknown,
}

/// The `OneWay` a tag value names; `unknown` for any other value.
pub open spec fn one_way_from_tag_spec(v: Seq<char>) -> OneWay {
    if v == "no"@ || v == "disabled"@ || v == "false"@ {
        OneWay::no
    } else if v == "yes"@ || v == "recommended"@ || v == "true"@ {
        OneWay::yes
    } else if v == "reverse"@ || v == "-1"@ {
        OneWay::reverse
    } else if v == "alternating"@ || v == "reversivle"@ || v == "conditional"@ {
        OneWay::alternating
    } else {
        OneWay::unknown
    }
}

impl FromTag for OneWay {
    open spec fn from_tag_spec(v: Seq<char>) -> Self {
        one_way_from_tag_spec(v)
    }

    fn from_tag(v: &str) -> (r: Self) {
        if str_eq(v, "no") || str_eq(v, "disabled") || str_eq(v, "false") {
            OneWay::no
        } else if str_eq(v, "yes") || str_eq(v, "recommended") || str_eq(v, "true") {
            OneWay::yes
        } else if str_eq(v, "reverse") || str_eq(v, "-1") {
            OneWay::reverse
        } else if str_eq(v, "alternating") || str_eq(v, "reversivle") || str_eq(v, "conditional") {
            OneWay::alternating
        } else {
            OneWay::unknown
        }
    }
}

impl Default for OneWay {
    fn default() -> (r: Self)
        ensures
            r == OneWay::no,
    {
        OneWay::no
    }
}

/// A value of a node's `barrier` tag.
#[allow(non_camel_case_types)]
#[derive(Copy, Clone, Debug, PartialEq, Eq, Structural)]
pub enum Barrier {
    /// Blocks motor vehicles and HGV; bicycles and pedestrians can still pass.
    bollard,
    /// Gate-type barrier: blocks motor vehicles by default; bikes often pass.
    gate,
    /// Blocks motor, HGV, and bicycle; only foot can pass.
    kissing_gate,
    /// Blocks bicycles (and motorcycles) only.
    cycle_barrier,
    unknown,
}

/// The `Barrier` a tag value names; `unknown` for any other value.
pub open spec fn barrier_from_tag_spec(v: Seq<char>) -> Barrier {
    if v == "bollard"@ || v == "block"@ || v == "chain"@ || v == "jersey_barrier"@ || v == "log"@ || v == "planter"@ || v == "rope"@ || v == "spikes"@ {
        Barrier::bollard
    } else if v == "gate"@ || v == "lift_gate"@ || v == "swing_gate"@ || v == "sliding_gate"@ || v == "hampshire_gate"@ || v == "bump_gate"@ || v == "wicket_gate"@ {
        Barrier::gate
    } else if v == "kissing_gate"@ || v == "stile"@ || v == "turnstile"@ || v == "full_height_turnstile"@ || v == "sump_buster"@ {
        Barrier::kissing_gate
    } else if v == "cycle_barrier"@ || v == "motorcycle_barrier"@ {
        Barrier::cycle_barrier
    } else {
        Barrier::unknown
    }
}

impl FromTag for Barrier {
    open spec fn from_tag_spec(v: Seq<char>) -> Self {
        barrier_from_tag_spec(v)
    }

    fn from_tag(v: &str) -> (r: Self) {
        if str_eq(v, "bollard") || str_eq(v, "block") || str_eq(v, "chain") || str_eq(v, "jersey_barrier") || str_eq(v, "log") || str_eq(v, "planter") || str_eq(v, "rope") || str_eq(v, "spikes") {
            Barrier::bollard
        } else if str_eq(v, "gate") || str_eq(v, "lift_gate") || str_eq(v, "swing_gate") || str_eq(v, "sliding_gate") || str_eq(v, "hampshire_gate") || str_eq(v, "bump_gate") || str_eq(v, "wicket_gate") {
            Barrier::gate
        } else if str_eq(v, "kissing_gate") || str_eq(v, "stile") || str_eq(v, "turnstile") || str_eq(v, "full_height_turnstile") || str_eq(v, "sump_buster") {
            Barrier::kissing_gate
        } else if str_eq(v, "cycle_barrier") || str_eq(v, "motorcycle_barrier") {
            Barrier::cycle_barrier
        } else {
            Barrier::unknown
        }
    }
}

/// A value of a node's `highway` tag.
#[allow(non_camel_case_types)]
#[derive(Copy, Clone, Debug, PartialEq, Eq, Structural)]
pub enum NodeHighway {
    traffic_signals,
    crossing,
    unknown,
}

/// The `NodeHighway` a tag value names; `unknown` for any other value.
pub open spec fn node_highway_from_tag_spec(v: Seq<char>) -> NodeHighway {
    if v == "traffic_signals"@ {
        NodeHighway::traffic_signals
    } else if v == "crossing"@ || v == "stop"@ || v == "give_way"@ || v == "mini_roundabout"@ || v == "turning_circle"@ || v == "turning_loop"@ {
        NodeHighway::crossing
    } else {
        NodeHighway::unknown
    }
}

impl FromTag for NodeHighway {
    open spec fn from_tag_spec(v: Seq<char>) -> Self {
        node_highway_from_tag_spec(v)
    }

    fn from_tag(v: &str) -> (r: Self) {
        if str_eq(v, "traffic_signals") {
            NodeHighway::traffic_signals
        } else if str_eq(v, "crossing") || str_eq(v, "stop") || str_eq(v, "give_way") || str_eq(v, "mini_roundabout") || str_eq(v, "turning_circle") || str_eq(v, "turning_loop") {
            NodeHighway::crossing
        } else {
            NodeHighway::unknown
        }
    }
}

/// A transport mode, as it appears in tag keys such as `hgv:conditional`.
#[allow(non_camel_case_types)]
#[derive(Copy, Clone, Debug, PartialEq, Eq, Structural)]
pub enum Mode {
    default,
    foot,
    horse,
    vehicle,
    bicycle,
    trailer,
    motor_vehicle,
    motorcycle,
    moped,
    mofa,
    motorcar,
    motorhome,
    tourist_bus,
    coach,
    goods,
    hgv,
    unknown,
}

/// The `Mode` a tag value names; `unknown` for any other value.
pub open spec fn mode_from_tag_spec(v: Seq<char>) -> Mode {
    if v == "default"@ {
        Mode::default
    } else if v == "foot"@ {
        Mode::foot
    } else if v == "horse"@ {
        Mode::horse
    } else if v == "vehicle"@ {
        Mode::vehicle
    } else if v == "bicycle"@ {
        Mode::bicycle
    } else if v == "trailer"@ {
        Mode::trailer
    } else if v == "motor_vehicle"@ {
        Mode::motor_vehicle
    } else if v == "motorcycle"@ {
        Mode::motorcycle
    } else if v == "moped"@ {
        Mode::moped
    } else if v == "mofa"@ {
        Mode::mofa
    } else if v == "motorcar"@ {
        Mode::motorcar
    } else if v == "motorhome"@ {
        Mode::motorhome
    } else if v == "tourist_bus"@ {
        Mode::tourist_bus
    } else if v == "coach"@ {
        Mode::coach
    } else if v == "goods"@ {
        Mode::goods
    } else if v == "hgv"@ {
        Mode::hgv
    } else {
        Mode::unknown
    }
}

impl FromTag for Mode {
    open spec fn from_tag_spec(v: Seq<char>) -> Self {
        mode_from_tag_spec(v)
    }

    fn from_tag(v: &str) -> (r: Self) {
        if str_eq(v, "default") {
            Mode::default
        } else if str_eq(v, "foot") {
            Mode::foot
        } else if str_eq(v, "horse") {
            Mode::horse
        } else if str_eq(v, "vehicle") {
            Mode::vehicle
        } else if str_eq(v, "bicycle") {
            Mode::bicycle
        } else if str_eq(v, "trailer") {
            Mode::trailer
        } else if str_eq(v, "motor_vehicle") {
            Mode::motor_vehicle
        } else if str_eq(v, "motorcycle") {
            Mode::motorcycle
        } else if str_eq(v, "moped") {
            Mode::moped
        } else if str_eq(v, "mofa") {
            Mode::mofa
        } else if str_eq(v, "motorcar") {
            Mode::motorcar
        } else if str_eq(v, "motorhome") {
            Mode::motorhome
        } else if str_eq(v, "tourist_bus") {
            Mode::tourist_bus
        } else if str_eq(v, "coach") {
            Mode::coach
        } else if str_eq(v, "goods") {
            Mode::goods
        } else if str_eq(v, "hgv") {
            Mode::hgv
        } else {
            Mode::unknown
        }
    }
}


/// A direction, as it appears in tag keys such as `oneway:backward`.
#[allow(non_camel_case_types)]
#[derive(Copy, Clone, Debug, PartialEq, Eq, Structural)]
pub enum Direction {
    both,
    forward,
    backward,
    left,
    right,
    unknown,
}

/// The `Direction` a tag value names; `unknown` for any other value.
pub open spec fn direction_from_tag_spec(v: Seq<char>) -> Direction {
    if v == "both"@ || v == "both_ways"@ {
        Direction::both
    } else if v == "forward"@ {
        Direction::forward
    } else if v == "backward"@ {
        Direction::backward
    } else if v == "left"@ {
        Direction::left
    } else if v == "right"@ {
        Direction::right
    } else {
        Direction::unknown
    }
}

impl FromTag for Direction {
    open spec fn from_tag_spec(v: Seq<char>) -> Self {
        direction_from_tag_spec(v)
    }

    fn from_tag(v: &str) -> (r: Self) {
        if str_eq(v, "both") || str_eq(v, "both_ways") {
            Direction::both
        } else if str_eq(v, "forward") {
            Direction::forward
        } else if str_eq(v, "backward") {
            Direction::backward
        } else if str_eq(v, "left") {
            Direction::left
        } else if str_eq(v, "right") {
            Direction::right
        } else {
            Direction::unknown
        }
    }
}

impl Default for Direction {
    fn default() -> (r: Self)
        ensures
            r == Direction::both,
    {
        Direction::both
    }
}
impl Access {
    /// The access values that keep general traffic out.
    pub open spec fn is_excluded_spec(self) -> bool {
        self == Access::no || self == Access::unknown || self == Access::permit || self == Access::military
            || self == Access::emergency || self == Access::forestry || self == Access::agricultural
    }

    pub fn is_excluded(self) -> (r: bool)
        ensures
            r == self.is_excluded_spec(),
    {
        match self {
            Access::no | Access::unknown | Access::permit | Access::military | Access::emergency
            | Access::forestry | Access::agricultural => true,
            _ => false,
        }
    }
}

impl Highway {
    /// The highway values that are not roads to route on.
    pub open spec fn is_excluded_spec(self) -> bool {
        self == Highway::unknown || self == Highway::no
    }

    pub fn is_excluded(self) -> (r: bool)
        ensures
            r == self.is_excluded_spec(),
    {
        match self {
            Highway::unknown | Highway::no => true,
            _ => false,
        }
    }
}

impl Junction {
    /// Returns `true` if this junction type implies a one-way direction restriction.
    pub fn implies_oneway(self) -> (r: bool)
        ensures
            r == (self == Junction::roundabout || self == Junction::circular),
    {
        match self {
            Junction::roundabout | Junction::circular => true,
            _ => false,
        }
    }
}


/// What one entry of a conditional tag says: its mode, direction,
/// condition text and value.
pub type ItemView<T> = (Mode, Direction, Option<Seq<char>>, T);

/// The text of an optional string slice.
pub open spec fn opt_view(o: Option<&str>) -> Option<Seq<char>> {
    match o {
        Some(s) => Some(s@),
        None => None,
    }
}

/// One entry of a tag that depends on mode, direction or condition.
pub struct ConditionalItem<'s, T> {
    pub mode: Mode,
    pub direction: Direction,
    pub condition: Option<&'s str>,
    pub value: T,
}

impl<'s, T> ConditionalItem<'s, T> {
    pub open spec fn item_view(self) -> ItemView<T> {
        (self.mode, self.direction, opt_view(self.condition), self.value)
    }
}

/// A tag that may be given once for everything, or several times for
/// particular modes, directions and conditions.
pub enum Conditional<'s, T> {
    Absent,
    Simple(T),
    Multi(Vec<ConditionalItem<'s, T>>),
}

/// What a conditional tag says: nothing, one general value, or its entries
/// in the order they were given.
pub enum CondView<T> {
    Absent,
    Single(T),
    Items(Seq<ItemView<T>>),
}

impl<'s, T> View for Conditional<'s, T> {
    type V = CondView<T>;

    open spec fn view(&self) -> CondView<T> {
        match self {
            Conditional::Absent => CondView::Absent,
            Conditional::Simple(v) => CondView::Single(*v),
            Conditional::Multi(items) => CondView::Items(items@.map_values(|i: ConditionalItem<'s, T>| i.item_view())),
        }
    }
}

impl<'s, T> Default for Conditional<'s, T> {
    fn default() -> (r: Self)
        ensures
            r@ == CondView::<T>::Absent,
    {
        Conditional::Absent
    }
}

/// Adding an entry: a first general entry stays a single value; otherwise
/// the entries are kept in order, a single value becoming a general first
/// entry.
pub open spec fn add_spec<T>(c: CondView<T>, mode: Mode, direction: Direction, condition: Option<Seq<char>>, value: T) -> CondView<T> {
    let item = (mode, direction, condition, value);
    match c {
        CondView::Absent => if mode == Mode::default && direction == Direction::both && condition is None {
            CondView::Single(value)
        } else {
            CondView::Items(seq![item])
        },
        CondView::Single(v0) => CondView::Items(seq![(Mode::default, Direction::both, None::<Seq<char>>, v0), item]),
        CondView::Items(s) => CondView::Items(s.push(item)),
    }
}

/// One part of a tag key read into the mode, direction and conditional flag
/// read so far.
pub open spec fn key_step(st: (Mode, Direction, bool), part: Seq<char>) -> (Mode, Direction, bool) {
    if part == "conditional"@ {
        (st.0, st.1, true)
    } else {
        let m = mode_from_tag_spec(part);
        if m != Mode::unknown && m != Mode::default {
            (m, st.1, st.2)
        } else {
            let d = direction_from_tag_spec(part);
            if d != Direction::unknown {
                (st.0, d, st.2)
            } else {
                st
            }
        }
    }
}

/// The mode, direction and conditional flag that the parts of a key give.
pub open spec fn key_state(parts: Seq<Seq<char>>) -> (Mode, Direction, bool)
    decreases parts.len(),
{
    if parts.len() == 0 {
        (Mode::default, Direction::both, false)
    } else {
        key_step(key_state(parts.drop_last()), parts.last())
    }
}

/// The parts of `t` before and after its first `c`.
pub open spec fn first_split(t: Seq<char>, c: char) -> (Seq<char>, Seq<char>) {
    choose|ab: (Seq<char>, Seq<char>)| t == ab.0 + seq![c] + ab.1 && !ab.0.contains(c)
}

/// The first occurrence of `c` splits `t` in one way only.
pub proof fn lemma_first_split(t: Seq<char>, c: char, a: Seq<char>, b: Seq<char>)
    requires
        t == a + seq![c] + b,
        !a.contains(c),
    ensures
        first_split(t, c) == (a, b),
{
    let w = (a, b);
    assert(t == w.0 + seq![c] + w.1 && !w.0.contains(c));
    let ab = first_split(t, c);
    assert(t == ab.0 + seq![c] + ab.1 && !ab.0.contains(c));
    if ab.0.len() < a.len() {
        assert(a[ab.0.len() as int] == t[ab.0.len() as int]);
    } else if a.len() < ab.0.len() {
        assert(ab.0[a.len() as int] == t[a.len() as int]);
    }
    assert(ab.0 =~= a) by {
        assert forall|i: int| 0 <= i < a.len() implies ab.0[i] == a[i] by {
            assert(ab.0[i] == t[i]);
        }
    }
    assert(ab.1 =~= b) by {
        assert forall|i: int| 0 <= i < b.len() implies ab.1[i] == b[i] by {
            assert(ab.1[i] == t[a.len() + 1 + i]);
        }
    }
}

/// One `;`-separated part of a conditional value: the value before an `@`
/// and the condition after it, both without surrounding whitespace.
pub open spec fn value_entry(part: Seq<char>) -> (Option<Seq<char>>, Seq<char>) {
    let t = trim_spec(part);
    if t.contains('@') {
        let ab = first_split(t, '@');
        (Some(trim_start_spec(ab.1)), trim_end_spec(ab.0))
    } else {
        (None, t)
    }
}

/// Adding the entries of the parts of a conditional value, in order.
pub open spec fn add_values<T: FromTag>(c: CondView<T>, mode: Mode, direction: Direction, parts: Seq<Seq<char>>) -> CondView<T>
    decreases parts.len(),
{
    if parts.len() == 0 {
        c
    } else {
        let e = value_entry(parts.last());
        add_spec(add_values(c, mode, direction, parts.drop_last()), mode, direction, e.0, T::from_tag_spec(e.1))
    }
}

/// Setting the tag `k` = `v`: the key's parts give the mode and direction and
/// whether the value is conditional; a conditional value adds one entry per
/// `;`-separated part, any other value one entry.
pub open spec fn cond_set_tag_spec<T: FromTag>(c: CondView<T>, k: Seq<char>, v: Seq<char>) -> CondView<T> {
    let st = key_state(split_spec(k, ':'));
    if st.2 {
        add_values(c, st.0, st.1, split_spec(v, ';'))
    } else {
        add_spec(c, st.0, st.1, None, T::from_tag_spec(v))
    }
}

impl<'s, T: FromTag> Conditional<'s, T> {
    pub fn is_none(&self) -> (r: bool)
        ensures
            r == (self@ is Absent),
    {
        match self {
            Conditional::Absent => true,
            _ => false,
        }
    }

    fn add(&mut self, mode: Mode, direction: Direction, condition: Option<&'s str>, value: T)
        ensures
            final(self)@ == add_spec(old(self)@, mode, direction, opt_view(condition), value),
    {
        let mut cur: Conditional<'s, T> = Conditional::Absent;
        std::mem::swap(self, &mut cur);
        match cur {
            Conditional::Absent => {
                let general = match condition {
                    Some(_) => false,
                    None => mode == Mode::default && direction == Direction::both,
                };
                if general {
                    *self = Conditional::Simple(value);
                } else {
                    let mut items: Vec<ConditionalItem<'s, T>> = Vec::new();
                    items.push(ConditionalItem { mode, direction, condition, value });
                    proof {
                        assert(items@.map_values(|i: ConditionalItem<'s, T>| i.item_view()) =~= seq![(mode, direction, opt_view(condition), value)]);
                    }
                    *self = Conditional::Multi(items);
                }
            },
            Conditional::Simple(v0) => {
                let mut items: Vec<ConditionalItem<'s, T>> = Vec::new();
                items.push(ConditionalItem { mode: Mode::default, direction: Direction::both, condition: None, value: v0 });
                items.push(ConditionalItem { mode, direction, condition, value });
                proof {
                    assert(items@.map_values(|i: ConditionalItem<'s, T>| i.item_view()) =~= seq![(Mode::default, Direction::both, None::<Seq<char>>, v0), (mode, direction, opt_view(condition), value)]);
                }
                *self = Conditional::Multi(items);
            },
            Conditional::Multi(items) => {
                let ghost before = items@;
                let mut items = items;
                items.push(ConditionalItem { mode, direction, condition, value });
                proof {
                    assert(items@.map_values(|i: ConditionalItem<'s, T>| i.item_view()) =~= before.map_values(|i: ConditionalItem<'s, T>| i.item_view()).push((mode, direction, opt_view(condition), value)));
                }
                *self = Conditional::Multi(items);
            },
        }
    }

    pub fn set_tag(&mut self, k: &str, v: &'s str)
        ensures
            final(self)@ == cond_set_tag_spec(old(self)@, k@, v@),
    {
        let parts = split_char(k, ':');
        let ghost kp = split_spec(k@, ':');
        let mut mode = Mode::default;
        let mut dir = Direction::both;
        let mut conditional = false;
        let mut i: usize = 0;
        while i < parts.len()
            invariant
                i <= parts@.len(),
                parts@.len() == kp.len(),
                forall|j: int| 0 <= j < parts@.len() ==> (#[trigger] parts@[j])@ == kp[j],
                (mode, dir, conditional) == key_state(kp.take(i as int)),
            decreases parts@.len() - i,
        {
            let part = parts[i];
            proof {
                assert(kp.take(i as int + 1).drop_last() =~= kp.take(i as int));
                assert(kp.take(i as int + 1).last() == part@);
            }
            if str_eq(part, "conditional") {
                conditional = true;
            } else {
                let m = Mode::from_tag(part);
                if m != Mode::unknown && m != Mode::default {
                    mode = m;
                } else {
                    let d = Direction::from_tag(part);
                    if d != Direction::unknown {
                        dir = d;
                    }
                }
            }
            i = i + 1;
        }
        proof {
            assert(kp.take(kp.len() as int) =~= kp);
        }
        if conditional {
            let vals = split_char(v, ';');
            let ghost vp = split_spec(v@, ';');
            let ghost c0 = self@;
            let mut j: usize = 0;
            while j < vals.len()
                invariant
                    j <= vals@.len(),
                    vals@.len() == vp.len(),
                    forall|x: int| 0 <= x < vals@.len() ==> (#[trigger] vals@[x])@ == vp[x],
                    self@ == add_values(c0, mode, dir, vp.take(j as int)),
                decreases vals@.len() - j,
            {
                let mut val = trim(vals[j]);
                let mut cond: Option<&'s str> = None;
                let ghost t = val@;
                match split_once_char(val, '@') {
                    Some((a, b)) => {
                        proof {
                            lemma_first_split(t, '@', a@, b@);
                            assert(t.contains('@')) by {
                                assert(t[a@.len() as int] == '@');
                            }
                        }
                        cond = Some(trim_start(b));
                        val = trim_end(a);
                    },
                    None => {},
                }
                proof {
                    assert(vp.take(j as int + 1).drop_last() =~= vp.take(j as int));
                    assert(vp.take(j as int + 1).last() == vals@[j as int]@);
                    assert((opt_view(cond), val@) == value_entry(vals@[j as int]@));
                }
                self.add(mode, dir, cond, T::from_tag(val));
                j = j + 1;
            }
            proof {
                assert(vp.take(vp.len() as int) =~= vp);
            }
        } else {
            self.add(mode, dir, None, T::from_tag(v));
        }
    }
}

/// An entry that applies to every mode and direction without condition.
pub open spec fn is_general<T>(i: ItemView<T>) -> bool {
    i.0 == Mode::default && i.1 == Direction::both && i.2 is None
}

/// Access tags exclude a way or node when their single value excludes, or
/// when they have general entries and every general entry excludes.
pub open spec fn access_excluded_spec(c: CondView<Access>) -> bool {
    match c {
        CondView::Absent => false,
        CondView::Single(a) => a.is_excluded_spec(),
        CondView::Items(s) => (exists|i: int| 0 <= i < s.len() && is_general(#[trigger] s[i])) && forall|i: int|
            0 <= i < s.len() && is_general(#[trigger] s[i]) ==> s[i].3.is_excluded_spec(),
    }
}

impl<'s> Conditional<'s, Access> {
    /// Only exclude a way when a general (no mode/direction/condition) access
    /// entry is explicitly prohibited. Mode- or direction-specific restrictions
    /// (e.g. `foot:left=no`) do not mean the way is globally inaccessible.
    pub fn is_excluded(&self) -> (r: bool)
        ensures
            r == access_excluded_spec(self@),
    {
        match self {
            Conditional::Absent => false,
            Conditional::Simple(a) => a.is_excluded(),
            Conditional::Multi(v) => {
                let ghost s = v@.map_values(|it: ConditionalItem<'s, Access>| it.item_view());
                proof {
                    assert(self@ == CondView::<Access>::Items(s));
                }
                let mut has_general = false;
                let mut i: usize = 0;
                while i < v.len()
                    invariant
                        i <= v@.len(),
                        self@ == CondView::<Access>::Items(s),
                        s == v@.map_values(|it: ConditionalItem<'s, Access>| it.item_view()),
                        has_general == exists|j: int| 0 <= j < i && is_general(#[trigger] s[j]),
                        forall|j: int| 0 <= j < i && is_general(#[trigger] s[j]) ==> s[j].3.is_excluded_spec(),
                    decreases v@.len() - i,
                {
                    let c = &v[i];
                    proof {
                        assert(s[i as int] == c.item_view());
                    }
                    let general = match c.condition {
                        Some(_) => false,
                        None => c.mode == Mode::default && c.direction == Direction::both,
                    };
                    proof {
                        assert(general == is_general(s[i as int]));
                    }
                    if general {
                        has_general = true;
                        if !c.value.is_excluded() {
                            proof {
                                assert(is_general(s[i as int]) && !s[i as int].3.is_excluded_spec());
                            }
                            return false;
                        }
                    }
                    i = i + 1;
                }
                has_general
            },
        }
    }
}


/// The tags of a way that routing reads.
pub struct WayTags<'s> {
    pub highway: Option<Highway>,
    pub access: Conditional<'s, Access>,
    pub oneway: Conditional<'s, OneWay>,
    pub toll: Option<bool>,
    pub surface: Option<Surface>,
    pub smoothness: Option<Smoothness>,
    pub tracktype: Option<TrackType>,
    pub junction: Option<Junction>,
    pub motorroad: bool,
    pub disused: bool,
    pub abandoned: bool,
    /// Raw value of the `maxspeed` tag, unparsed. Use [`parse_max_speed`] with a
    /// named-value map to resolve this to km/h.
    pub raw_max_speed: Option<&'s str>,
    pub raw_max_speed_forward: Option<&'s str>,
    pub raw_max_speed_backward: Option<&'s str>,
    pub tunnel: bool,
    pub bridge: bool,
    pub ferry: bool,
    pub raw_max_height: Option<&'s str>,
    pub raw_max_width: Option<&'s str>,
    pub raw_max_weight: Option<&'s str>,
}

/// What the tags of a way say, the raw values as text.
pub struct WayTagsView {
    pub highway: Option<Highway>,
    pub access: CondView<Access>,
    pub oneway: CondView<OneWay>,
    pub toll: Option<bool>,
    pub surface: Option<Surface>,
    pub smoothness: Option<Smoothness>,
    pub tracktype: Option<TrackType>,
    pub junction: Option<Junction>,
    pub motorroad: bool,
    pub disused: bool,
    pub abandoned: bool,
    pub raw_max_speed: Option<Seq<char>>,
    pub raw_max_speed_forward: Option<Seq<char>>,
    pub raw_max_speed_backward: Option<Seq<char>>,
    pub tunnel: bool,
    pub bridge: bool,
    pub ferry: bool,
    pub raw_max_height: Option<Seq<char>>,
    pub raw_max_width: Option<Seq<char>>,
    pub raw_max_weight: Option<Seq<char>>,
}

impl<'s> View for WayTags<'s> {
    type V = WayTagsView;

    open spec fn view(&self) -> WayTagsView {
        WayTagsView {
            highway: self.highway,
            access: self.access@,
            oneway: self.oneway@,
            toll: self.toll,
            surface: self.surface,
            smoothness: self.smoothness,
            tracktype: self.tracktype,
            junction: self.junction,
            motorroad: self.motorroad,
            disused: self.disused,
            abandoned: self.abandoned,
            raw_max_speed: opt_view(self.raw_max_speed),
            raw_max_speed_forward: opt_view(self.raw_max_speed_forward),
            raw_max_speed_backward: opt_view(self.raw_max_speed_backward),
            tunnel: self.tunnel,
            bridge: self.bridge,
            ferry: self.ferry,
            raw_max_height: opt_view(self.raw_max_height),
            raw_max_width: opt_view(self.raw_max_width),
            raw_max_weight: opt_view(self.raw_max_weight),
        }
    }
}

impl<'s> Default for WayTags<'s> {
    fn default() -> (r: Self)
        ensures
            r@ == (WayTagsView {
                highway: None,
                access: CondView::Absent,
                oneway: CondView::Absent,
                toll: None,
                surface: None,
                smoothness: None,
                tracktype: None,
                junction: None,
                motorroad: false,
                disused: false,
                abandoned: false,
                raw_max_speed: None,
                raw_max_speed_forward: None,
                raw_max_speed_backward: None,
                tunnel: false,
                bridge: false,
                ferry: false,
                raw_max_height: None,
                raw_max_width: None,
                raw_max_weight: None,
            }),
    {
        WayTags {
            highway: None,
            access: Conditional::Absent,
            oneway: Conditional::Absent,
            toll: None,
            surface: None,
            smoothness: None,
            tracktype: None,
            junction: None,
            motorroad: false,
            disused: false,
            abandoned: false,
            raw_max_speed: None,
            raw_max_speed_forward: None,
            raw_max_speed_backward: None,
            tunnel: false,
            bridge: false,
            ferry: false,
            raw_max_height: None,
            raw_max_width: None,
            raw_max_weight: None,
        }
    }
}

/// The part of a key before its first `:`.
pub open spec fn key_prefix(k: Seq<char>) -> Seq<char> {
    split_spec(k, ':')[0]
}

/// One of the `:`-separated parts of the key is `part`.
pub open spec fn key_has_part(k: Seq<char>, part: Seq<char>) -> bool {
    split_spec(k, ':').contains(part)
}

/// A value other than `no` and `false` is true.
pub open spec fn yes_unless_no(v: Seq<char>) -> bool {
    !(v == "no"@ || v == "false"@)
}

/// Setting the way tag `k` = `v`: the known keys set their field, keys
/// starting with `oneway` or `access` or a mode set the conditional tags
/// (lane-specific access keys excepted); returns whether the key was known.
pub open spec fn way_set_tag_spec(o: WayTagsView, k: Seq<char>, v: Seq<char>) -> (WayTagsView, bool) {
    if k == "highway"@ {
        (WayTagsView { highway: Some(highway_from_tag_spec(v)), ..o }, true)
    } else if k == "toll"@ {
        (WayTagsView { toll: Some(<bool as FromTag>::from_tag_spec(v)), ..o }, true)
    } else if k == "surface"@ {
        (WayTagsView { surface: Some(surface_from_tag_spec(v)), ..o }, true)
    } else if k == "smoothness"@ {
        (WayTagsView { smoothness: Some(smoothness_from_tag_spec(v)), ..o }, true)
    } else if k == "tracktype"@ {
        (WayTagsView { tracktype: Some(track_type_from_tag_spec(v)), ..o }, true)
    } else if k == "junction"@ {
        (WayTagsView { junction: Some(junction_from_tag_spec(v)), ..o }, true)
    } else if k == "motorroad"@ {
        (WayTagsView { motorroad: <bool as FromTag>::from_tag_spec(v), ..o }, true)
    } else if k == "disused"@ {
        (WayTagsView { disused: <bool as FromTag>::from_tag_spec(v), ..o }, true)
    } else if k == "abandoned"@ {
        (WayTagsView { abandoned: <bool as FromTag>::from_tag_spec(v), ..o }, true)
    } else if k == "maxspeed"@ {
        (WayTagsView { raw_max_speed: Some(v), ..o }, true)
    } else if k == "maxspeed:forward"@ {
        (WayTagsView { raw_max_speed_forward: Some(v), ..o }, true)
    } else if k == "maxspeed:backward"@ {
        (WayTagsView { raw_max_speed_backward: Some(v), ..o }, true)
    } else if k == "tunnel"@ {
        (WayTagsView { tunnel: yes_unless_no(v), ..o }, true)
    } else if k == "bridge"@ {
        (WayTagsView { bridge: yes_unless_no(v), ..o }, true)
    } else if k == "route"@ {
        (WayTagsView { ferry: v == "ferry"@, ..o }, true)
    } else if k == "maxheight"@ {
        (WayTagsView { raw_max_height: Some(v), ..o }, true)
    } else if k == "maxwidth"@ {
        (WayTagsView { raw_max_width: Some(v), ..o }, true)
    } else if k == "maxweight"@ {
        (WayTagsView { raw_max_weight: Some(v), ..o }, true)
    } else {
        let k2 = key_prefix(k);
        if k2 == "oneway"@ {
            (WayTagsView { oneway: cond_set_tag_spec(o.oneway, k, v), ..o }, true)
        } else if k2 == "access"@ || (mode_from_tag_spec(k2) != Mode::default && mode_from_tag_spec(k2) != Mode::unknown) {
            if key_has_part(k, "lanes"@) {
                (o, true)
            } else {
                (WayTagsView { access: cond_set_tag_spec(o.access, k, v), ..o }, true)
            }
        } else {
            (o, false)
        }
    }
}

/// The part of `k` before its first `:`, or `k` when it has none.
fn key_prefix_of<'a>(k: &'a str) -> (r: &'a str)
    ensures
        r@ == key_prefix(k@),
{
    match split_once_char(k, ':') {
        Some((a, b)) => {
            proof {
                crate::text::lemma_split_first(a@, b@, ':');
            }
            a
        },
        None => {
            proof {
                crate::text::lemma_split_single(k@, ':');
            }
            k
        },
    }
}

/// Whether one of the `:`-separated parts of `k` is `part`.
fn key_has_part_of(k: &str, part: &str) -> (r: bool)
    ensures
        r == key_has_part(k@, part@),
{
    let parts = split_char(k, ':');
    let ghost kp = split_spec(k@, ':');
    let mut i: usize = 0;
    while i < parts.len()
        invariant
            i <= parts@.len(),
            kp == split_spec(k@, ':'),
            parts@.len() == kp.len(),
            forall|j: int| 0 <= j < parts@.len() ==> (#[trigger] parts@[j])@ == kp[j],
            forall|j: int| 0 <= j < i ==> kp[j] != part@,
        decreases parts@.len() - i,
    {
        if str_eq(parts[i], part) {
            proof {
                assert(kp[i as int] == part@);
                assert(kp.contains(part@));
            }
            return true;
        }
        i = i + 1;
    }
    false
}

impl<'s> WayTags<'s> {
    pub fn set_tag(&mut self, k: &str, v: &'s str) -> (r: bool)
        ensures
            (final(self)@, r) == way_set_tag_spec(old(self)@, k@, v@),
    {
        if str_eq(k, "highway") {
            self.highway = FromTag::from_tag(v);
        } else if str_eq(k, "toll") {
            self.toll = FromTag::from_tag(v);
        } else if str_eq(k, "surface") {
            self.surface = FromTag::from_tag(v);
        } else if str_eq(k, "smoothness") {
            self.smoothness = FromTag::from_tag(v);
        } else if str_eq(k, "tracktype") {
            self.tracktype = FromTag::from_tag(v);
        } else if str_eq(k, "junction") {
            self.junction = FromTag::from_tag(v);
        } else if str_eq(k, "motorroad") {
            self.motorroad = FromTag::from_tag(v);
        } else if str_eq(k, "disused") {
            self.disused = FromTag::from_tag(v);
        } else if str_eq(k, "abandoned") {
            self.abandoned = FromTag::from_tag(v);
        } else if str_eq(k, "maxspeed") {
            self.raw_max_speed = Some(v);
        } else if str_eq(k, "maxspeed:forward") {
            self.raw_max_speed_forward = Some(v);
        } else if str_eq(k, "maxspeed:backward") {
            self.raw_max_speed_backward = Some(v);
        } else if str_eq(k, "tunnel") {
            self.tunnel = !(str_eq(v, "no") || str_eq(v, "false"));
        } else if str_eq(k, "bridge") {
            self.bridge = !(str_eq(v, "no") || str_eq(v, "false"));
        } else if str_eq(k, "route") {
            self.ferry = str_eq(v, "ferry");
        } else if str_eq(k, "maxheight") {
            self.raw_max_height = Some(v);
        } else if str_eq(k, "maxwidth") {
            self.raw_max_width = Some(v);
        } else if str_eq(k, "maxweight") {
            self.raw_max_weight = Some(v);
        } else {
            let k2 = key_prefix_of(k);
            if str_eq(k2, "oneway") {
                self.oneway.set_tag(k, v);
            } else if str_eq(k2, "access") {
                if !key_has_part_of(k, "lanes") {
                    self.access.set_tag(k, v);
                }
            } else {
                let m = Mode::from_tag(k2);
                if m != Mode::default && m != Mode::unknown {
                    if !key_has_part_of(k, "lanes") {
                        self.access.set_tag(k, v);
                    }
                } else {
                    return false;
                }
            }
        }
        true
    }

    /// Ways that are not routable: neither a road nor a ferry, excluded by
    /// their access tags, disused or abandoned.
    pub open spec fn is_excluded_spec(self) -> bool {
        (!self.ferry && match self.highway {
            None => true,
            Some(h) => h.is_excluded_spec(),
        }) || access_excluded_spec(self.access@) || self.disused || self.abandoned
    }

    pub fn is_excluded(&self) -> (r: bool)
        ensures
            r == self.is_excluded_spec(),
    {
        let highway_excluded = match self.highway {
            None => true,
            Some(h) => h.is_excluded(),
        };
        (!self.ferry && highway_excluded) || self.access.is_excluded() || self.disused || self.abandoned
    }
}


/// The tags of a node that routing reads.
pub struct NodeTags<'s> {
    pub barrier: Option<Barrier>,
    pub access: Conditional<'s, Access>,
    pub highway: Option<NodeHighway>,
    pub toll: Option<bool>,
}

/// What the tags of a node say.
pub struct NodeTagsView {
    pub barrier: Option<Barrier>,
    pub access: CondView<Access>,
    pub highway: Option<NodeHighway>,
    pub toll: Option<bool>,
}

impl<'s> View for NodeTags<'s> {
    type V = NodeTagsView;

    open spec fn view(&self) -> NodeTagsView {
        NodeTagsView { barrier: self.barrier, access: self.access@, highway: self.highway, toll: self.toll }
    }
}

impl<'s> Default for NodeTags<'s> {
    fn default() -> (r: Self)
        ensures
            r@ == (NodeTagsView { barrier: None, access: CondView::Absent, highway: None, toll: None }),
    {
        NodeTags { barrier: None, access: Conditional::Absent, highway: None, toll: None }
    }
}

/// Setting the node tag `k` = `v`: the known keys set their field, keys
/// starting with `access` or a mode set the access tags; returns whether the
/// key was known.
pub open spec fn node_set_tag_spec(o: NodeTagsView, k: Seq<char>, v: Seq<char>) -> (NodeTagsView, bool) {
    if k == "barrier"@ {
        (NodeTagsView { barrier: Some(barrier_from_tag_spec(v)), ..o }, true)
    } else if k == "highway"@ {
        (NodeTagsView { highway: Some(node_highway_from_tag_spec(v)), ..o }, true)
    } else if k == "toll"@ {
        (NodeTagsView { toll: Some(<bool as FromTag>::from_tag_spec(v)), ..o }, true)
    } else {
        let k2 = key_prefix(k);
        if k2 == "access"@ || (mode_from_tag_spec(k2) != Mode::default && mode_from_tag_spec(k2) != Mode::unknown) {
            (NodeTagsView { access: cond_set_tag_spec(o.access, k, v), ..o }, true)
        } else {
            (o, false)
        }
    }
}

impl<'s> NodeTags<'s> {
    pub fn set_tag(&mut self, k: &str, v: &'s str) -> (r: bool)
        ensures
            (final(self)@, r) == node_set_tag_spec(old(self)@, k@, v@),
    {
        if str_eq(k, "barrier") {
            self.barrier = FromTag::from_tag(v);
        } else if str_eq(k, "highway") {
            self.highway = FromTag::from_tag(v);
        } else if str_eq(k, "toll") {
            self.toll = FromTag::from_tag(v);
        } else {
            let k2 = key_prefix_of(k);
            if str_eq(k2, "access") {
                self.access.set_tag(k, v);
            } else {
                let m = Mode::from_tag(k2);
                if m != Mode::default && m != Mode::unknown {
                    self.access.set_tag(k, v);
                } else {
                    return false;
                }
            }
        }
        true
    }

    pub fn has_routing_data(&self) -> (r: bool)
        ensures
            r == (self.barrier is Some || !(self.access@ is Absent) || self.highway is Some || self.toll is Some),
    {
        self.barrier.is_some() || !self.access.is_none() || self.highway.is_some() || self.toll.is_some()
    }
}

/// The value of a decimal digit character.
pub open spec fn digit_spec(c: char) -> Option<nat> {
    if c == '0' {
        Some(0)
    } else if c == '1' {
        Some(1)
    } else if c == '2' {
        Some(2)
    } else if c == '3' {
        Some(3)
    } else if c == '4' {
        Some(4)
    } else if c == '5' {
        Some(5)
    } else if c == '6' {
        Some(6)
    } else if c == '7' {
        Some(7)
    } else if c == '8' {
        Some(8)
    } else if c == '9' {
        Some(9)
    } else {
        None
    }
}

/// The value of a decimal digit character.
fn digit_of(c: char) -> (r: Option<u32>)
    ensures
        r matches Some(x) ==> digit_spec(c) == Some(x as nat),
        r is None ==> digit_spec(c) is None,
{
    if c == '0' {
        Some(0)
    } else if c == '1' {
        Some(1)
    } else if c == '2' {
        Some(2)
    } else if c == '3' {
        Some(3)
    } else if c == '4' {
        Some(4)
    } else if c == '5' {
        Some(5)
    } else if c == '6' {
        Some(6)
    } else if c == '7' {
        Some(7)
    } else if c == '8' {
        Some(8)
    } else if c == '9' {
        Some(9)
    } else {
        None
    }
}

/// The number that a sequence of decimal digits writes.
pub open spec fn digits_value(s: Seq<char>) -> nat
    decreases s.len(),
{
    if s.len() == 0 {
        0
    } else {
        digits_value(s.drop_last()) * 10 + digit_spec(s.last())->0
    }
}

/// What `str::parse::<u16>` gives: an optional `+` followed by at least one
/// decimal digit, with a value that fits in a `u16`.
pub open spec fn parse_u16_spec(s: Seq<char>) -> Option<u16> {
    let d = digits_part(s);
    if d.len() > 0 && (forall|i: int| 0 <= i < d.len() ==> (#[trigger] digit_spec(d[i])) is Some) && digits_value(d)
        <= 65535 {
        Some(digits_value(d) as u16)
    } else {
        None
    }
}

/// `s` without a leading `+`.
pub open spec fn digits_part(s: Seq<char>) -> Seq<char> {
    if s.len() > 0 && s[0] == '+' {
        s.drop_first()
    } else {
        s
    }
}

/// A longer run of digits writes a number no smaller.
proof fn lemma_digits_grow(d: Seq<char>, k: int)
    requires
        0 <= k <= d.len(),
        forall|i: int| 0 <= i < d.len() ==> (#[trigger] digit_spec(d[i])) is Some,
    ensures
        digits_value(d.take(k)) <= digits_value(d),
    decreases d.len() - k,
{
    if k < d.len() {
        lemma_digits_grow(d, k + 1);
        assert(d.take(k + 1).drop_last() =~= d.take(k));
    } else {
        assert(d.take(k) =~= d);
    }
}

/// Parses an unsigned 16-bit decimal number as `str::parse::<u16>` does.
pub fn parse_u16(s: &str) -> (r: Option<u16>)
    ensures
        r == parse_u16_spec(s@),
{
    let n = s.unicode_len();
    let ghost d = digits_part(s@);
    let mut start: usize = 0;
    if n > 0 && s.get_char(0) == '+' {
        start = 1;
    }
    proof {
        assert(d =~= s@.subrange(start as int, n as int));
    }
    if start >= n {
        return None;
    }
    let mut val: u32 = 0;
    let mut i: usize = start;
    while i < n
        invariant
            start <= i <= n,
            n == s@.len(),
            d == s@.subrange(start as int, n as int),
            d == digits_part(s@),
            forall|j: int| 0 <= j < i - start ==> (#[trigger] digit_spec(d[j])) is Some,
            val == digits_value(d.take(i - start)),
            val <= 65535,
        decreases n - i,
    {
        let c = s.get_char(i);
        proof {
            assert(d[i - start] == c);
        }
        let dv = match digit_of(c) {
            Some(x) => x,
            None => {
                proof {
                    assert(digit_spec(d[i - start]) is None);
                }
                return None;
            },
        };
        proof {
            assert(d.take(i - start + 1).drop_last() =~= d.take(i - start));
            assert(d.take(i - start + 1).last() == d[i - start]);
        }
        val = val * 10 + dv;
        if val > 65535 {
            proof {
                if forall|j: int| 0 <= j < d.len() ==> (#[trigger] digit_spec(d[j])) is Some {
                    lemma_digits_grow(d, i - start + 1);
                }
            }
            return None;
        }
        i = i + 1;
    }
    proof {
        assert(d.take(n - start) =~= d);
    }
    Some(val as u16)
}

/// The named map holds a key whose text is `t`.
pub open spec fn named_has(named: Map<String, u8>, t: Seq<char>) -> bool {
    exists|key: String| #[trigger] named.contains_key(key) && key@ == t
}

/// `HashMap::get` on a map keyed by `String`, looked up by the text of `v`:
/// the value of the key with that text, if there is one.
#[verifier::external_body]
fn named_speed(named: &HashMap<String, u8>, v: &str) -> (r: Option<u8>)
    ensures
        match r {
            Some(x) => exists|key: String| #[trigger] named@.contains_key(key) && key@ == v@ && named@[key] == x,
            None => !named_has(named@, v@),
        },
{
    named.get(v).copied()
}

/// A speed in miles per hour, as km/h capped at 255.
pub open spec fn mph_speed_spec(p: Seq<char>) -> Option<u8> {
    match parse_u16_spec(trim_spec(p)) {
        Some(m) => Some(if m * 1609 / 1000 <= 255 { (m * 1609 / 1000) as u8 } else { 255u8 }),
        None => None,
    }
}

/// The part of `t` before a suffix ` mph` or `mph`, if it has one.
pub open spec fn mph_part(t: Seq<char>) -> Option<Seq<char>> {
    if ends_with(t, " mph"@) {
        Some(t.subrange(0, t.len() - 4))
    } else if ends_with(t, "mph"@) {
        Some(t.subrange(0, t.len() - 3))
    } else {
        None
    }
}

/// The speed a trimmed `maxspeed` value names when the named map does not
/// hold it: the generic names, miles per hour, or km/h, capped at 255.
pub open spec fn builtin_speed_spec(t: Seq<char>) -> Option<u8> {
    if t == "walk"@ || t == "walking"@ {
        Some(7)
    } else if t == "living_street"@ {
        Some(10)
    } else if t == "urban"@ {
        Some(50)
    } else if t == "rural"@ {
        Some(90)
    } else if t == "motorway"@ {
        Some(130)
    } else if mph_part(t) is Some {
        mph_speed_spec(mph_part(t)->0)
    } else {
        match parse_u16_spec(t) {
            Some(k) => Some(if k <= 255 { k as u8 } else { 255u8 }),
            None => None,
        }
    }
}

/// The generic speed names have fixed speeds when the named map has no entry
/// for them: `walk` and `walking` 7 km/h, `living_street` 10, `urban` 50,
/// `rural` 90 and `motorway` 130.
pub proof fn lemma_generic_speed_names(t: Seq<char>)
    ensures
        t == "walk"@ ==> builtin_speed_spec(t) == Some(7u8),
        t == "walking"@ ==> builtin_speed_spec(t) == Some(7u8),
        t == "living_street"@ ==> builtin_speed_spec(t) == Some(10u8),
        t == "urban"@ ==> builtin_speed_spec(t) == Some(50u8),
        t == "rural"@ ==> builtin_speed_spec(t) == Some(90u8),
        t == "motorway"@ ==> builtin_speed_spec(t) == Some(130u8),
{
    if t == "walk"@ {
        reveal_strlit("walk");
    }
    if t == "walking"@ {
        reveal_strlit("walking");
        reveal_strlit("walk");
        assert("walk"@.len() != "walking"@.len());
    }
    if t == "living_street"@ {
        reveal_strlit("living_street");
        reveal_strlit("walk");
        assert("walk"@.len() != "living_street"@.len());
        reveal_strlit("walking");
        assert("walking"@.len() != "living_street"@.len());
    }
    if t == "urban"@ {
        reveal_strlit("urban");
        reveal_strlit("walk");
        assert("walk"@.len() != "urban"@.len());
        reveal_strlit("walking");
        assert("walking"@.len() != "urban"@.len());
        reveal_strlit("living_street");
        assert("living_street"@.len() != "urban"@.len());
    }
    if t == "rural"@ {
        reveal_strlit("rural");
        reveal_strlit("walk");
        assert("walk"@.len() != "rural"@.len());
        reveal_strlit("walking");
        assert("walking"@.len() != "rural"@.len());
        reveal_strlit("living_street");
        assert("living_street"@.len() != "rural"@.len());
        reveal_strlit("urban");
        assert("urban"@[0] != "rural"@[0]);
    }
    if t == "motorway"@ {
        reveal_strlit("motorway");
        reveal_strlit("walk");
        assert("walk"@.len() != "motorway"@.len());
        reveal_strlit("walking");
        assert("walking"@.len() != "motorway"@.len());
        reveal_strlit("living_street");
        assert("living_street"@.len() != "motorway"@.len());
        reveal_strlit("urban");
        assert("urban"@.len() != "motorway"@.len());
        reveal_strlit("rural");
        assert("rural"@.len() != "motorway"@.len());
    }
}

/// Parse an OSM `maxspeed` tag value into km/h, capped at 255.
///
/// Lookup order:
/// 1. `named` map — handles any named value including country-coded ones
///    (`"DE:urban"`, `"GB:nsl_dual"`) and can override generics (`"urban"`, `"walk"`).
/// 2. Built-in fallbacks for generic names (for when the map has no entry).
/// 3. Imperial suffix (`"30 mph"`).
/// 4. Plain integer km/h.
///
/// Returns `None` for unrecognised named values, letting the caller fall back
/// to the profile's highway-class default.
pub fn parse_max_speed(v: &str, named: &HashMap<String, u8>) -> (r: Option<u8>)
    ensures
        named_has(named@, trim_spec(v@)) ==> (r matches Some(x) && exists|key: String|
            #[trigger] named@.contains_key(key) && key@ == trim_spec(v@) && named@[key] == x),
        !named_has(named@, trim_spec(v@)) ==> r == builtin_speed_spec(trim_spec(v@)),
        !named_has(named@, trim_spec(v@)) && trim_spec(v@) == "walk"@ ==> r == Some(7u8),
        !named_has(named@, trim_spec(v@)) && trim_spec(v@) == "walking"@ ==> r == Some(7u8),
        !named_has(named@, trim_spec(v@)) && trim_spec(v@) == "living_street"@ ==> r == Some(10u8),
        !named_has(named@, trim_spec(v@)) && trim_spec(v@) == "urban"@ ==> r == Some(50u8),
        !named_has(named@, trim_spec(v@)) && trim_spec(v@) == "rural"@ ==> r == Some(90u8),
        !named_has(named@, trim_spec(v@)) && trim_spec(v@) == "motorway"@ ==> r == Some(130u8),
{
    proof {
        lemma_generic_speed_names(trim_spec(v@));
    }
    let v = trim(v);
    match named_speed(named, v) {
        Some(kmh) => {
            return Some(kmh);
        },
        None => {},
    }
    if str_eq(v, "walk") || str_eq(v, "walking") {
        return Some(7);
    } else if str_eq(v, "living_street") {
        return Some(10);
    } else if str_eq(v, "urban") {
        return Some(50);
    } else if str_eq(v, "rural") {
        return Some(90);
    } else if str_eq(v, "motorway") {
        return Some(130);
    }
    proof {
        reveal_strlit(" mph");
        reveal_strlit("mph");
    }
    let ghost t = v@;
    let stripped = match strip_suffix_str(v, " mph") {
        Some(p) => {
            proof {
                assert(t.subrange(t.len() - 4, t.len() as int) =~= " mph"@);
                assert(p@ =~= t.subrange(0, t.len() - 4));
            }
            Some(p)
        },
        None => {
            let r2 = strip_suffix_str(v, "mph");
            proof {
                if let Some(p) = r2 {
                    assert(t.subrange(t.len() - 3, t.len() as int) =~= "mph"@);
                    assert(p@ =~= t.subrange(0, t.len() - 3));
                }
            }
            r2
        },
    };
    proof {
        assert(match stripped {
            Some(p) => mph_part(t) == Some(p@),
            None => mph_part(t) is None,
        });
    }
    if let Some(mph) = stripped {
        let m = match parse_u16(trim(mph)) {
            Some(m) => m,
            None => {
                return None;
            },
        };
        let kmh: u32 = (m as u32) * 1609 / 1000;
        return Some(if kmh < 255 { kmh as u8 } else { 255 });
    }
    let kmh = match parse_u16(v) {
        Some(k) => k,
        None => {
            return None;
        },
    };
    Some(if kmh < 255 { kmh as u8 } else { 255 })
}

} // verus!
