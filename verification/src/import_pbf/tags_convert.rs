//! From OSM tags to the attributes stored for ways, edges and nodes.

use vstd::prelude::*;

use super::tags::{
    highway_from_tag_spec, access_excluded_spec, Access, Barrier, CondView, Conditional, ConditionalItem, Direction, Highway,
    ItemView, Junction, Mode, NodeHighway, NodeTags, OneWay, Smoothness, Surface, TrackType, WayTags,
};
use crate::storage::access::{AccessFlags, EdgeFlags};
use crate::storage::attrib::{highway_name_spec, HighwayClass, NodeFlags, SurfaceQuality, WayFlags};

verus! {

/// The highway class of a `highway` value.
pub open spec fn highway_class_spec(highway: Option<Highway>) -> HighwayClass {
    match highway {
        Some(Highway::motorway) => HighwayClass::Motorway,
        Some(Highway::trunk) => HighwayClass::Trunk,
        Some(Highway::primary) => HighwayClass::Primary,
        Some(Highway::secondary) => HighwayClass::Secondary,
        Some(Highway::tertiary) => HighwayClass::Tertiary,
        Some(Highway::motorway_link) => HighwayClass::MotorwayLink,
        Some(Highway::trunk_link) => HighwayClass::TrunkLink,
        Some(Highway::primary_link) => HighwayClass::PrimaryLink,
        Some(Highway::secondary_link) => HighwayClass::SecondaryLink,
        Some(Highway::tertiary_link) => HighwayClass::TertiaryLink,
        Some(Highway::unclassified) => HighwayClass::Unclassified,
        Some(Highway::residential) => HighwayClass::Residential,
        Some(Highway::living_street) => HighwayClass::LivingStreet,
        Some(Highway::service) => HighwayClass::Service,
        Some(Highway::track) => HighwayClass::Track,
        Some(Highway::road) => HighwayClass::Road,
        Some(Highway::pedestrian) => HighwayClass::Pedestrian,
        Some(Highway::footway) => HighwayClass::Footway,
        Some(Highway::cycleway) => HighwayClass::Cycleway,
        Some(Highway::path) => HighwayClass::Path,
        Some(Highway::bridleway) => HighwayClass::Bridleway,
        _ => HighwayClass::Unknown,
    }
}

/// An entry for direction `d` applies when traversing forward (or not).
pub open spec fn dir_matches(d: Direction, is_forward: bool) -> bool {
    match d {
        Direction::forward => is_forward,
        Direction::backward => !is_forward,
        Direction::both => true,
        _ => false,
    }
}

/// The bits an excluding entry for `mode` sets, given the bits that stand for
/// motor vehicles, HGV, bicycles and pedestrians.
pub open spec fn restricted_bits(mode: Mode, motor: u8, hgv: u8, bicycle: u8, foot: u8) -> u8 {
    match mode {
        Mode::default => motor | hgv | bicycle | foot,
        Mode::vehicle => motor | hgv | bicycle,
        Mode::motor_vehicle => motor | hgv,
        Mode::motorcar | Mode::motorcycle | Mode::moped | Mode::mofa | Mode::motorhome => motor,
        Mode::hgv | Mode::goods | Mode::coach | Mode::tourist_bus => hgv,
        Mode::bicycle => bicycle,
        Mode::foot => foot,
        _ => 0,
    }
}

/// The bits a permitting entry for `mode` clears.
pub open spec fn released_bits(mode: Mode, motor: u8, hgv: u8, bicycle: u8, foot: u8) -> u8 {
    match mode {
        Mode::vehicle => motor | hgv | bicycle,
        Mode::motor_vehicle => motor | hgv,
        Mode::motorcar | Mode::motorcycle | Mode::moped | Mode::mofa | Mode::motorhome => motor,
        Mode::hgv | Mode::goods | Mode::coach | Mode::tourist_bus => hgv,
        Mode::bicycle => bicycle,
        Mode::foot => foot,
        _ => 0,
    }
}

fn restricted_bits_of(mode: Mode, motor: u8, hgv: u8, bicycle: u8, foot: u8) -> (r: u8)
    ensures
        r == restricted_bits(mode, motor, hgv, bicycle, foot),
{
    match mode {
        Mode::default => motor | hgv | bicycle | foot,
        Mode::vehicle => motor | hgv | bicycle,
        Mode::motor_vehicle => motor | hgv,
        Mode::motorcar | Mode::motorcycle | Mode::moped | Mode::mofa | Mode::motorhome => motor,
        Mode::hgv | Mode::goods | Mode::coach | Mode::tourist_bus => hgv,
        Mode::bicycle => bicycle,
        Mode::foot => foot,
        _ => 0,
    }
}

fn released_bits_of(mode: Mode, motor: u8, hgv: u8, bicycle: u8, foot: u8) -> (r: u8)
    ensures
        r == released_bits(mode, motor, hgv, bicycle, foot),
{
    match mode {
        Mode::vehicle => motor | hgv | bicycle,
        Mode::motor_vehicle => motor | hgv,
        Mode::motorcar | Mode::motorcycle | Mode::moped | Mode::mofa | Mode::motorhome => motor,
        Mode::hgv | Mode::goods | Mode::coach | Mode::tourist_bus => hgv,
        Mode::bicycle => bicycle,
        Mode::foot => foot,
        _ => 0,
    }
}

/// Access entries that apply (all of them, or those matching the direction)
/// and exclude set the bits of their mode, in order.
pub open spec fn apply_restrictions(items: Seq<ItemView<Access>>, directional: bool, is_forward: bool, bits: u8, motor: u8, hgv: u8, bicycle: u8, foot: u8) -> u8
    decreases items.len(),
{
    if items.len() == 0 {
        bits
    } else {
        let acc = apply_restrictions(items.drop_last(), directional, is_forward, bits, motor, hgv, bicycle, foot);
        let it = items.last();
        if (!directional || dir_matches(it.1, is_forward)) && it.3.is_excluded_spec() {
            acc | restricted_bits(it.0, motor, hgv, bicycle, foot)
        } else {
            acc
        }
    }
}

/// Access entries that apply and permit clear the bits of their mode, in order.
pub open spec fn apply_releases(items: Seq<ItemView<Access>>, directional: bool, is_forward: bool, bits: u8, motor: u8, hgv: u8, bicycle: u8, foot: u8) -> u8
    decreases items.len(),
{
    if items.len() == 0 {
        bits
    } else {
        let acc = apply_releases(items.drop_last(), directional, is_forward, bits, motor, hgv, bicycle, foot);
        let it = items.last();
        if (!directional || dir_matches(it.1, is_forward)) && !it.3.is_excluded_spec() {
            acc & !released_bits(it.0, motor, hgv, bicycle, foot)
        } else {
            acc
        }
    }
}

/// The access tags applied to `bits`: a single excluding value sets all four
/// bits; entries first set the bits of excluding entries, then clear those of
/// permitting ones.
pub open spec fn apply_access(access: CondView<Access>, directional: bool, is_forward: bool, bits: u8, motor: u8, hgv: u8, bicycle: u8, foot: u8) -> u8 {
    match access {
        CondView::Single(a) => if a.is_excluded_spec() {
            bits | (motor | hgv | bicycle | foot)
        } else {
            bits
        },
        CondView::Items(s) => apply_releases(
            s,
            directional,
            is_forward,
            apply_restrictions(s, directional, is_forward, bits, motor, hgv, bicycle, foot),
            motor,
            hgv,
            bicycle,
            foot,
        ),
        CondView::Absent => bits,
    }
}

/// Applies access entries to `bits` as `apply_access` does.
fn apply_access_items<'s>(items: &Vec<ConditionalItem<'s, Access>>, directional: bool, is_forward: bool, bits: u8, motor: u8, hgv: u8, bicycle: u8, foot: u8) -> (r: u8)
    ensures
        r == apply_releases(
            items@.map_values(|i: ConditionalItem<'s, Access>| i.item_view()),
            directional,
            is_forward,
            apply_restrictions(items@.map_values(|i: ConditionalItem<'s, Access>| i.item_view()), directional, is_forward, bits, motor, hgv, bicycle, foot),
            motor,
            hgv,
            bicycle,
            foot,
        ),
{
    let ghost s = items@.map_values(|i: ConditionalItem<'s, Access>| i.item_view());
    let mut flags = bits;
    let mut i: usize = 0;
    while i < items.len()
        invariant
            i <= items@.len(),
            s == items@.map_values(|i: ConditionalItem<'s, Access>| i.item_view()),
            flags == apply_restrictions(s.take(i as int), directional, is_forward, bits, motor, hgv, bicycle, foot),
        decreases items@.len() - i,
    {
        let item = &items[i];
        proof {
            assert(s.take(i as int + 1).drop_last() =~= s.take(i as int));
            assert(s.take(i as int + 1).last() == item.item_view());
        }
        let applies = !directional || match item.direction {
            Direction::forward => is_forward,
            Direction::backward => !is_forward,
            Direction::both => true,
            _ => false,
        };
        if applies && item.value.is_excluded() {
            flags = flags | restricted_bits_of(item.mode, motor, hgv, bicycle, foot);
        }
        i = i + 1;
    }
    proof {
        assert(s.take(s.len() as int) =~= s);
    }
    let ghost restricted = flags;
    let mut j: usize = 0;
    while j < items.len()
        invariant
            j <= items@.len(),
            s == items@.map_values(|i: ConditionalItem<'s, Access>| i.item_view()),
            restricted == apply_restrictions(s, directional, is_forward, bits, motor, hgv, bicycle, foot),
            flags == apply_releases(s.take(j as int), directional, is_forward, restricted, motor, hgv, bicycle, foot),
        decreases items@.len() - j,
    {
        let item = &items[j];
        proof {
            assert(s.take(j as int + 1).drop_last() =~= s.take(j as int));
            assert(s.take(j as int + 1).last() == item.item_view());
        }
        let applies = !directional || match item.direction {
            Direction::forward => is_forward,
            Direction::backward => !is_forward,
            Direction::both => true,
            _ => false,
        };
        if applies && !item.value.is_excluded() {
            flags = flags & !released_bits_of(item.mode, motor, hgv, bicycle, foot);
        }
        j = j + 1;
    }
    proof {
        assert(s.take(s.len() as int) =~= s);
    }
    flags
}

/// The quality of the surface: from `smoothness`, else `tracktype`, else `surface`.
pub open spec fn surface_quality_spec(smoothness: Option<Smoothness>, tracktype: Option<TrackType>, surface: Option<Surface>) -> SurfaceQuality {
    match smoothness {
        Some(s) => match s {
            Smoothness::excellent => SurfaceQuality::Excellent,
            Smoothness::good | Smoothness::intermediate => SurfaceQuality::Good,
            Smoothness::bad => SurfaceQuality::Bad,
            Smoothness::very_bad => SurfaceQuality::VeryBad,
            Smoothness::horrible | Smoothness::very_horrible => SurfaceQuality::Horrible,
            Smoothness::impassable => SurfaceQuality::Impassable,
            Smoothness::unknown => SurfaceQuality::Unknown,
        },
        None => match tracktype {
            Some(t) => match t {
                TrackType::grade1 => SurfaceQuality::Good,
                TrackType::grade2 => SurfaceQuality::Intermediate,
                TrackType::grade3 => SurfaceQuality::Bad,
                TrackType::grade4 => SurfaceQuality::VeryBad,
                TrackType::grade5 => SurfaceQuality::Horrible,
                TrackType::unknown => SurfaceQuality::Unknown,
            },
            None => match surface {
                Some(s) => match s {
                    Surface::asphalt | Surface::concrete | Surface::metal | Surface::rubber => SurfaceQuality::Excellent,
                    Surface::paved | Surface::paving_stones => SurfaceQuality::Good,
                    Surface::cobblestone | Surface::wood | Surface::stepping_stones | Surface::compacted => SurfaceQuality::Intermediate,
                    Surface::unpaved => SurfaceQuality::Bad,
                    Surface::gravel | Surface::ground => SurfaceQuality::VeryBad,
                    Surface::grass => SurfaceQuality::Horrible,
                    Surface::sand | Surface::ice => SurfaceQuality::Impassable,
                    Surface::unknown => SurfaceQuality::Unknown,
                },
                None => SurfaceQuality::Unknown,
            },
        },
    }
}

/// The bits that the highway class alone sets on an edge.
pub open spec fn highway_access_bits(highway: HighwayClass) -> u8 {
    match highway {
        HighwayClass::Footway | HighwayClass::Pedestrian | HighwayClass::Cycleway | HighwayClass::Path => (
        AccessFlags::NO_MOTOR | AccessFlags::NO_HGV),
        HighwayClass::Bridleway => AccessFlags::NO_MOTOR | AccessFlags::NO_HGV | AccessFlags::NO_BICYCLE,
        HighwayClass::Motorway | HighwayClass::MotorwayLink => AccessFlags::NO_BICYCLE | AccessFlags::NO_FOOT,
        _ => 0,
    }
}

/// The way flags that the tags give: oneway (a `oneway` of yes or -1, or a
/// roundabout or circular junction), toll, tunnel and bridge.
pub open spec fn way_flags_spec(tags: WayTags) -> u16 {
    (if tags.oneway@ == CondView::Single(OneWay::yes) || tags.oneway@ == CondView::Single(OneWay::reverse)
        || (tags.junction matches Some(j) && (j == Junction::roundabout || j == Junction::circular)) {
        WayFlags::ONEWAY
    } else {
        0
    }) | (if tags.toll == Some(true) {
        WayFlags::TOLL
    } else {
        0
    }) | (if tags.tunnel {
        WayFlags::TUNNEL
    } else {
        0
    }) | (if tags.bridge {
        WayFlags::BRIDGE
    } else {
        0
    })
}

/// The way is tagged `oneway=-1`: it runs against the order of its nodes.
pub open spec fn oneway_reverse_spec(tags: WayTags) -> bool {
    tags.oneway@ == CondView::Single(OneWay::reverse)
}

/// Bicycles may ride against the oneway direction: a conditional `oneway`
/// item `oneway:bicycle=no`.
pub open spec fn bicycle_contraflow_spec(tags: WayTags) -> bool {
    tags.oneway@ matches CondView::Items(s) && exists|i: int|
        0 <= i < s.len() && (#[trigger] s[i]).0 == Mode::bicycle && s[i].3 == OneWay::no
}

/// The access flags of a way in one direction: what its highway class and
/// `motorroad` block, then its access tags, entries applying only in their
/// direction.
pub open spec fn directional_access_spec(tags: WayTags, highway: HighwayClass, is_forward: bool) -> u8 {
    let b0 = highway_access_bits(highway);
    let b1 = if tags.motorroad {
        b0 | (AccessFlags::NO_BICYCLE | AccessFlags::NO_FOOT)
    } else {
        b0
    };
    apply_access(tags.access@, true, is_forward, b1, AccessFlags::NO_MOTOR, AccessFlags::NO_HGV, AccessFlags::NO_BICYCLE, AccessFlags::NO_FOOT)
}

impl<'s> WayTags<'s> {
    pub fn highway_class(&self) -> (r: HighwayClass)
        ensures
            r == highway_class_spec(self.highway),
    {
        match self.highway {
            Some(Highway::motorway) => HighwayClass::Motorway,
            Some(Highway::trunk) => HighwayClass::Trunk,
            Some(Highway::primary) => HighwayClass::Primary,
            Some(Highway::secondary) => HighwayClass::Secondary,
            Some(Highway::tertiary) => HighwayClass::Tertiary,
            Some(Highway::motorway_link) => HighwayClass::MotorwayLink,
            Some(Highway::trunk_link) => HighwayClass::TrunkLink,
            Some(Highway::primary_link) => HighwayClass::PrimaryLink,
            Some(Highway::secondary_link) => HighwayClass::SecondaryLink,
            Some(Highway::tertiary_link) => HighwayClass::TertiaryLink,
            Some(Highway::unclassified) => HighwayClass::Unclassified,
            Some(Highway::residential) => HighwayClass::Residential,
            Some(Highway::living_street) => HighwayClass::LivingStreet,
            Some(Highway::service) => HighwayClass::Service,
            Some(Highway::track) => HighwayClass::Track,
            Some(Highway::road) => HighwayClass::Road,
            Some(Highway::pedestrian) => HighwayClass::Pedestrian,
            Some(Highway::footway) => HighwayClass::Footway,
            Some(Highway::cycleway) => HighwayClass::Cycleway,
            Some(Highway::path) => HighwayClass::Path,
            Some(Highway::bridleway) => HighwayClass::Bridleway,
            _ => HighwayClass::Unknown,
        }
    }

    pub fn is_oneway_reverse(&self) -> (r: bool)
        ensures
            r == oneway_reverse_spec(*self),
    {
        match &self.oneway {
            Conditional::Simple(OneWay::reverse) => true,
            _ => false,
        }
    }

    /// WayFlags for metadata shared across all edges of the same OSM way.
    pub fn derive_way_flags(&self) -> (r: WayFlags)
        ensures
            r.0 == way_flags_spec(*self),
    {
        let oneway_value = match &self.oneway {
            Conditional::Simple(OneWay::yes) | Conditional::Simple(OneWay::reverse) => true,
            _ => false,
        };
        let junction_oneway = match self.junction {
            Some(j) => j.implies_oneway(),
            None => false,
        };
        let toll = match self.toll {
            Some(t) => t,
            None => false,
        };
        let o: u16 = if oneway_value || junction_oneway {
            WayFlags::ONEWAY
        } else {
            0
        };
        let t: u16 = if toll {
            WayFlags::TOLL
        } else {
            0
        };
        let u: u16 = if self.tunnel {
            WayFlags::TUNNEL
        } else {
            0
        };
        let b: u16 = if self.bridge {
            WayFlags::BRIDGE
        } else {
            0
        };
        let bits = o | t | u | b;
        WayFlags(bits)
    }

    /// Access flags for one traversal direction, derived from highway class and access tags.
    ///
    /// `is_forward`: true for the forward (node[0]→node[n-1]) direction.
    /// Items with `direction == both` always apply; items with `direction == forward` / `backward`
    /// only apply when the traversal direction matches.
    pub fn derive_directional_access(&self, highway: HighwayClass, is_forward: bool) -> (r: EdgeFlags)
        ensures
            r.0 == directional_access_spec(*self, highway, is_forward),
    {
        let mut flags: u8 = match highway {
            HighwayClass::Footway | HighwayClass::Pedestrian | HighwayClass::Cycleway | HighwayClass::Path => {
                AccessFlags::NO_MOTOR | AccessFlags::NO_HGV
            },
            HighwayClass::Bridleway => AccessFlags::NO_MOTOR | AccessFlags::NO_HGV | AccessFlags::NO_BICYCLE,
            HighwayClass::Motorway | HighwayClass::MotorwayLink => AccessFlags::NO_BICYCLE | AccessFlags::NO_FOOT,
            _ => 0,
        };
        if self.motorroad {
            flags = flags | (AccessFlags::NO_BICYCLE | AccessFlags::NO_FOOT);
        }
        flags = match &self.access {
            Conditional::Simple(a) => if a.is_excluded() {
                flags | (AccessFlags::NO_MOTOR | AccessFlags::NO_HGV | AccessFlags::NO_BICYCLE | AccessFlags::NO_FOOT)
            } else {
                flags
            },
            Conditional::Multi(items) => apply_access_items(
                items,
                true,
                is_forward,
                flags,
                AccessFlags::NO_MOTOR,
                AccessFlags::NO_HGV,
                AccessFlags::NO_BICYCLE,
                AccessFlags::NO_FOOT,
            ),
            Conditional::Absent => flags,
        };
        AccessFlags(flags)
    }

    pub fn is_bicycle_contraflow(&self) -> (r: bool)
        ensures
            r == bicycle_contraflow_spec(*self),
    {
        match &self.oneway {
            Conditional::Multi(items) => {
                let ghost s = items@.map_values(|i: ConditionalItem<'s, OneWay>| i.item_view());
                proof {
                    assert(self.oneway@ == CondView::<OneWay>::Items(s));
                }
                let mut i: usize = 0;
                while i < items.len()
                    invariant
                        i <= items@.len(),
                        self.oneway@ == CondView::<OneWay>::Items(s),
                        s == items@.map_values(|i: ConditionalItem<'s, OneWay>| i.item_view()),
                        forall|j: int| 0 <= j < i ==> !((#[trigger] s[j]).0 == Mode::bicycle && s[j].3 == OneWay::no),
                    decreases items@.len() - i,
                {
                    let item = &items[i];
                    proof {
                        assert(s[i as int] == item.item_view());
                    }
                    if item.mode == Mode::bicycle && item.value == OneWay::no {
                        proof {
                            assert(s[i as int].0 == Mode::bicycle && s[i as int].3 == OneWay::no);
                        }
                        return true;
                    }
                    i = i + 1;
                }
                false
            },
            _ => false,
        }
    }

    pub fn surface_quality(&self) -> (r: SurfaceQuality)
        ensures
            r == surface_quality_spec(self.smoothness, self.tracktype, self.surface),
    {
        if let Some(s) = self.smoothness {
            return match s {
                Smoothness::excellent => SurfaceQuality::Excellent,
                Smoothness::good | Smoothness::intermediate => SurfaceQuality::Good,
                Smoothness::bad => SurfaceQuality::Bad,
                Smoothness::very_bad => SurfaceQuality::VeryBad,
                Smoothness::horrible | Smoothness::very_horrible => SurfaceQuality::Horrible,
                Smoothness::impassable => SurfaceQuality::Impassable,
                Smoothness::unknown => SurfaceQuality::Unknown,
            };
        }
        if let Some(t) = self.tracktype {
            return match t {
                TrackType::grade1 => SurfaceQuality::Good,
                TrackType::grade2 => SurfaceQuality::Intermediate,
                TrackType::grade3 => SurfaceQuality::Bad,
                TrackType::grade4 => SurfaceQuality::VeryBad,
                TrackType::grade5 => SurfaceQuality::Horrible,
                TrackType::unknown => SurfaceQuality::Unknown,
            };
        }
        if let Some(s) = self.surface {
            return match s {
                Surface::asphalt | Surface::concrete | Surface::metal | Surface::rubber => SurfaceQuality::Excellent,
                Surface::paved | Surface::paving_stones => SurfaceQuality::Good,
                Surface::cobblestone | Surface::wood | Surface::stepping_stones | Surface::compacted => {
                    SurfaceQuality::Intermediate
                },
                Surface::unpaved => SurfaceQuality::Bad,
                Surface::gravel | Surface::ground => SurfaceQuality::VeryBad,
                Surface::grass => SurfaceQuality::Horrible,
                Surface::sand | Surface::ice => SurfaceQuality::Impassable,
                Surface::unknown => SurfaceQuality::Unknown,
            };
        }
        SurfaceQuality::Unknown
    }
}

/// The bits a barrier sets on a node.
pub open spec fn barrier_bits(barrier: Option<Barrier>) -> u8 {
    match barrier {
        Some(Barrier::bollard) | Some(Barrier::gate) => NodeFlags::NO_MOTOR | NodeFlags::NO_HGV,
        Some(Barrier::kissing_gate) => NodeFlags::NO_MOTOR | NodeFlags::NO_HGV | NodeFlags::NO_BICYCLE,
        Some(Barrier::cycle_barrier) => NodeFlags::NO_BICYCLE,
        _ => 0,
    }
}

/// The flags of a node: what its barrier blocks, then its access tags (every
/// entry applying), then traffic signals and toll.
pub open spec fn node_flags_spec(tags: NodeTags) -> u8 {
    let b = apply_access(tags.access@, false, true, barrier_bits(tags.barrier), NodeFlags::NO_MOTOR, NodeFlags::NO_HGV, NodeFlags::NO_BICYCLE, NodeFlags::NO_FOOT);
    let b2 = if tags.highway == Some(NodeHighway::traffic_signals) {
        b | NodeFlags::TRAFFIC_SIGNALS
    } else {
        b
    };
    if tags.toll == Some(true) {
        b2 | NodeFlags::TOLL
    } else {
        b2
    }
}

impl<'s> NodeTags<'s> {
    pub fn derive_node_flags(&self) -> (r: NodeFlags)
        ensures
            r.0 == node_flags_spec(*self),
    {
        let mut flags: u8 = match self.barrier {
            Some(Barrier::bollard) | Some(Barrier::gate) => NodeFlags::NO_MOTOR | NodeFlags::NO_HGV,
            Some(Barrier::kissing_gate) => NodeFlags::NO_MOTOR | NodeFlags::NO_HGV | NodeFlags::NO_BICYCLE,
            Some(Barrier::cycle_barrier) => NodeFlags::NO_BICYCLE,
            _ => 0,
        };
        flags = match &self.access {
            Conditional::Simple(a) => if a.is_excluded() {
                flags | (NodeFlags::NO_MOTOR | NodeFlags::NO_HGV | NodeFlags::NO_BICYCLE | NodeFlags::NO_FOOT)
            } else {
                flags
            },
            Conditional::Multi(items) => apply_access_items(
                items,
                false,
                true,
                flags,
                NodeFlags::NO_MOTOR,
                NodeFlags::NO_HGV,
                NodeFlags::NO_BICYCLE,
                NodeFlags::NO_FOOT,
            ),
            Conditional::Absent => flags,
        };
        let signals = match self.highway {
            Some(NodeHighway::traffic_signals) => true,
            _ => false,
        };
        if signals {
            flags = flags | NodeFlags::TRAFFIC_SIGNALS;
        }
        let toll = match self.toll {
            Some(t) => t,
            None => false,
        };
        if toll {
            flags = flags | NodeFlags::TOLL;
        }
        NodeFlags(flags)
    }
}


/// Every routed highway tag keeps its name as a class: the name of the class
/// that a `highway` value gets reads back as that same value, and only the
/// values that are not routed (`busway`, `no` and unknown ones) get
/// `Unknown`.
pub proof fn lemma_highway_class_keeps_name(h: Highway)
    ensures
        highway_class_spec(Some(h)) == HighwayClass::Unknown <==> (h == Highway::busway || h == Highway::no || h
            == Highway::unknown),
        highway_class_spec(Some(h)) != HighwayClass::Unknown ==> highway_from_tag_spec(
            highway_name_spec(highway_class_spec(Some(h))),
        ) == h,
{
    match h {
        Highway::motorway => {
            reveal_strlit("motorway");
        },
        Highway::trunk => {
            reveal_strlit("trunk");
            reveal_strlit("motorway");
            assert("motorway"@.len() != "trunk"@.len());
        },
        Highway::primary => {
            reveal_strlit("primary");
            reveal_strlit("motorway");
            assert("motorway"@.len() != "primary"@.len());
            reveal_strlit("trunk");
            assert("trunk"@.len() != "primary"@.len());
        },
        Highway::secondary => {
            reveal_strlit("secondary");
            reveal_strlit("motorway");
            assert("motorway"@.len() != "secondary"@.len());
            reveal_strlit("trunk");
            assert("trunk"@.len() != "secondary"@.len());
            reveal_strlit("primary");
            assert("primary"@.len() != "secondary"@.len());
        },
        Highway::tertiary => {
            reveal_strlit("tertiary");
            reveal_strlit("motorway");
            assert("motorway"@[0] != "tertiary"@[0]);
            reveal_strlit("trunk");
            assert("trunk"@.len() != "tertiary"@.len());
            reveal_strlit("primary");
            assert("primary"@.len() != "tertiary"@.len());
            reveal_strlit("secondary");
            assert("secondary"@.len() != "tertiary"@.len());
        },
        Highway::motorway_link => {
            reveal_strlit("motorway_link");
            reveal_strlit("motorway");
            assert("motorway"@.len() != "motorway_link"@.len());
            reveal_strlit("trunk");
            assert("trunk"@.len() != "motorway_link"@.len());
            reveal_strlit("primary");
            assert("primary"@.len() != "motorway_link"@.len());
            reveal_strlit("secondary");
            assert("secondary"@.len() != "motorway_link"@.len());
            reveal_strlit("tertiary");
            assert("tertiary"@.len() != "motorway_link"@.len());
        },
        Highway::trunk_link => {
            reveal_strlit("trunk_link");
            reveal_strlit("motorway");
            assert("motorway"@.len() != "trunk_link"@.len());
            reveal_strlit("trunk");
            assert("trunk"@.len() != "trunk_link"@.len());
            reveal_strlit("primary");
            assert("primary"@.len() != "trunk_link"@.len());
            reveal_strlit("secondary");
            assert("secondary"@.len() != "trunk_link"@.len());
            reveal_strlit("tertiary");
            assert("tertiary"@.len() != "trunk_link"@.len());
            reveal_strlit("motorway_link");
            assert("motorway_link"@.len() != "trunk_link"@.len());
        },
        Highway::primary_link => {
            reveal_strlit("primary_link");
            reveal_strlit("motorway");
            assert("motorway"@.len() != "primary_link"@.len());
            reveal_strlit("trunk");
            assert("trunk"@.len() != "primary_link"@.len());
            reveal_strlit("primary");
            assert("primary"@.len() != "primary_link"@.len());
            reveal_strlit("secondary");
            assert("secondary"@.len() != "primary_link"@.len());
            reveal_strlit("tertiary");
            assert("tertiary"@.len() != "primary_link"@.len());
            reveal_strlit("motorway_link");
            assert("motorway_link"@.len() != "primary_link"@.len());
            reveal_strlit("trunk_link");
            assert("trunk_link"@.len() != "primary_link"@.len());
        },
        Highway::secondary_link => {
            reveal_strlit("secondary_link");
            reveal_strlit("motorway");
            assert("motorway"@.len() != "secondary_link"@.len());
            reveal_strlit("trunk");
            assert("trunk"@.len() != "secondary_link"@.len());
            reveal_strlit("primary");
            assert("primary"@.len() != "secondary_link"@.len());
            reveal_strlit("secondary");
            assert("secondary"@.len() != "secondary_link"@.len());
            reveal_strlit("tertiary");
            assert("tertiary"@.len() != "secondary_link"@.len());
            reveal_strlit("motorway_link");
            assert("motorway_link"@.len() != "secondary_link"@.len());
            reveal_strlit("trunk_link");
            assert("trunk_link"@.len() != "secondary_link"@.len());
            reveal_strlit("primary_link");
            assert("primary_link"@.len() != "secondary_link"@.len());
        },
        Highway::tertiary_link => {
            reveal_strlit("tertiary_link");
            reveal_strlit("motorway");
            assert("motorway"@.len() != "tertiary_link"@.len());
            reveal_strlit("trunk");
            assert("trunk"@.len() != "tertiary_link"@.len());
            reveal_strlit("primary");
            assert("primary"@.len() != "tertiary_link"@.len());
            reveal_strlit("secondary");
            assert("secondary"@.len() != "tertiary_link"@.len());
            reveal_strlit("tertiary");
            assert("tertiary"@.len() != "tertiary_link"@.len());
            reveal_strlit("motorway_link");
            assert("motorway_link"@[0] != "tertiary_link"@[0]);
            reveal_strlit("trunk_link");
            assert("trunk_link"@.len() != "tertiary_link"@.len());
            reveal_strlit("primary_link");
            assert("primary_link"@.len() != "tertiary_link"@.len());
            reveal_strlit("secondary_link");
            assert("secondary_link"@.len() != "tertiary_link"@.len());
        },
        Highway::unclassified => {
            reveal_strlit("unclassified");
            reveal_strlit("motorway");
            assert("motorway"@.len() != "unclassified"@.len());
            reveal_strlit("trunk");
            assert("trunk"@.len() != "unclassified"@.len());
            reveal_strlit("primary");
            assert("primary"@.len() != "unclassified"@.len());
            reveal_strlit("secondary");
            assert("secondary"@.len() != "unclassified"@.len());
            reveal_strlit("tertiary");
            assert("tertiary"@.len() != "unclassified"@.len());
            reveal_strlit("motorway_link");
            assert("motorway_link"@.len() != "unclassified"@.len());
            reveal_strlit("trunk_link");
            assert("trunk_link"@.len() != "unclassified"@.len());
            reveal_strlit("primary_link");
            assert("primary_link"@[0] != "unclassified"@[0]);
            reveal_strlit("secondary_link");
            assert("secondary_link"@.len() != "unclassified"@.len());
            reveal_strlit("tertiary_link");
            assert("tertiary_link"@.len() != "unclassified"@.len());
        },
        Highway::residential => {
            reveal_strlit("residential");
            reveal_strlit("motorway");
            assert("motorway"@.len() != "residential"@.len());
            reveal_strlit("trunk");
            assert("trunk"@.len() != "residential"@.len());
            reveal_strlit("primary");
            assert("primary"@.len() != "residential"@.len());
            reveal_strlit("secondary");
            assert("secondary"@.len() != "residential"@.len());
            reveal_strlit("tertiary");
            assert("tertiary"@.len() != "residential"@.len());
            reveal_strlit("motorway_link");
            assert("motorway_link"@.len() != "residential"@.len());
            reveal_strlit("trunk_link");
            assert("trunk_link"@.len() != "residential"@.len());
            reveal_strlit("primary_link");
            assert("primary_link"@.len() != "residential"@.len());
            reveal_strlit("secondary_link");
            assert("secondary_link"@.len() != "residential"@.len());
            reveal_strlit("tertiary_link");
            assert("tertiary_link"@.len() != "residential"@.len());
            reveal_strlit("unclassified");
            assert("unclassified"@.len() != "residential"@.len());
        },
        Highway::living_street => {
            reveal_strlit("living_street");
            reveal_strlit("motorway");
            assert("motorway"@.len() != "living_street"@.len());
            reveal_strlit("trunk");
            assert("trunk"@.len() != "living_street"@.len());
            reveal_strlit("primary");
            assert("primary"@.len() != "living_street"@.len());
            reveal_strlit("secondary");
            assert("secondary"@.len() != "living_street"@.len());
            reveal_strlit("tertiary");
            assert("tertiary"@.len() != "living_street"@.len());
            reveal_strlit("motorway_link");
            assert("motorway_link"@[0] != "living_street"@[0]);
            reveal_strlit("trunk_link");
            assert("trunk_link"@.len() != "living_street"@.len());
            reveal_strlit("primary_link");
            assert("primary_link"@.len() != "living_street"@.len());
            reveal_strlit("secondary_link");
            assert("secondary_link"@.len() != "living_street"@.len());
            reveal_strlit("tertiary_link");
            assert("tertiary_link"@[0] != "living_street"@[0]);
            reveal_strlit("unclassified");
            assert("unclassified"@.len() != "living_street"@.len());
            reveal_strlit("residential");
            assert("residential"@.len() != "living_street"@.len());
            reveal_strlit("pedestrian");
            assert("pedestrian"@.len() != "living_street"@.len());
            reveal_strlit("crossing");
            assert("crossing"@.len() != "living_street"@.len());
            reveal_strlit("steps");
            assert("steps"@.len() != "living_street"@.len());
        },
        Highway::service => {
            reveal_strlit("service");
            reveal_strlit("motorway");
            assert("motorway"@.len() != "service"@.len());
            reveal_strlit("trunk");
            assert("trunk"@.len() != "service"@.len());
            reveal_strlit("primary");
            assert("primary"@[0] != "service"@[0]);
            reveal_strlit("secondary");
            assert("secondary"@.len() != "service"@.len());
            reveal_strlit("tertiary");
            assert("tertiary"@.len() != "service"@.len());
            reveal_strlit("motorway_link");
            assert("motorway_link"@.len() != "service"@.len());
            reveal_strlit("trunk_link");
            assert("trunk_link"@.len() != "service"@.len());
            reveal_strlit("primary_link");
            assert("primary_link"@.len() != "service"@.len());
            reveal_strlit("secondary_link");
            assert("secondary_link"@.len() != "service"@.len());
            reveal_strlit("tertiary_link");
            assert("tertiary_link"@.len() != "service"@.len());
            reveal_strlit("unclassified");
            assert("unclassified"@.len() != "service"@.len());
            reveal_strlit("residential");
            assert("residential"@.len() != "service"@.len());
            reveal_strlit("pedestrian");
            assert("pedestrian"@.len() != "service"@.len());
            reveal_strlit("crossing");
            assert("crossing"@.len() != "service"@.len());
            reveal_strlit("steps");
            assert("steps"@.len() != "service"@.len());
            reveal_strlit("living_street");
            assert("living_street"@.len() != "service"@.len());
        },
        Highway::track => {
            reveal_strlit("track");
            reveal_strlit("motorway");
            assert("motorway"@.len() != "track"@.len());
            reveal_strlit("trunk");
            assert("trunk"@[2] != "track"@[2]);
            reveal_strlit("primary");
            assert("primary"@.len() != "track"@.len());
            reveal_strlit("secondary");
            assert("secondary"@.len() != "track"@.len());
            reveal_strlit("tertiary");
            assert("tertiary"@.len() != "track"@.len());
            reveal_strlit("motorway_link");
            assert("motorway_link"@.len() != "track"@.len());
            reveal_strlit("trunk_link");
            assert("trunk_link"@.len() != "track"@.len());
            reveal_strlit("primary_link");
            assert("primary_link"@.len() != "track"@.len());
            reveal_strlit("secondary_link");
            assert("secondary_link"@.len() != "track"@.len());
            reveal_strlit("tertiary_link");
            assert("tertiary_link"@.len() != "track"@.len());
            reveal_strlit("unclassified");
            assert("unclassified"@.len() != "track"@.len());
            reveal_strlit("residential");
            assert("residential"@.len() != "track"@.len());
            reveal_strlit("pedestrian");
            assert("pedestrian"@.len() != "track"@.len());
            reveal_strlit("crossing");
            assert("crossing"@.len() != "track"@.len());
            reveal_strlit("steps");
            assert("steps"@[0] != "track"@[0]);
            reveal_strlit("living_street");
            assert("living_street"@.len() != "track"@.len());
            reveal_strlit("service");
            assert("service"@.len() != "track"@.len());
        },
        Highway::road => {
            reveal_strlit("road");
            reveal_strlit("motorway");
            assert("motorway"@.len() != "road"@.len());
            reveal_strlit("trunk");
            assert("trunk"@.len() != "road"@.len());
            reveal_strlit("primary");
            assert("primary"@.len() != "road"@.len());
            reveal_strlit("secondary");
            assert("secondary"@.len() != "road"@.len());
            reveal_strlit("tertiary");
            assert("tertiary"@.len() != "road"@.len());
            reveal_strlit("motorway_link");
            assert("motorway_link"@.len() != "road"@.len());
            reveal_strlit("trunk_link");
            assert("trunk_link"@.len() != "road"@.len());
            reveal_strlit("primary_link");
            assert("primary_link"@.len() != "road"@.len());
            reveal_strlit("secondary_link");
            assert("secondary_link"@.len() != "road"@.len());
            reveal_strlit("tertiary_link");
            assert("tertiary_link"@.len() != "road"@.len());
            reveal_strlit("unclassified");
            assert("unclassified"@.len() != "road"@.len());
            reveal_strlit("residential");
            assert("residential"@.len() != "road"@.len());
            reveal_strlit("pedestrian");
            assert("pedestrian"@.len() != "road"@.len());
            reveal_strlit("crossing");
            assert("crossing"@.len() != "road"@.len());
            reveal_strlit("steps");
            assert("steps"@.len() != "road"@.len());
            reveal_strlit("living_street");
            assert("living_street"@.len() != "road"@.len());
            reveal_strlit("service");
            assert("service"@.len() != "road"@.len());
            reveal_strlit("track");
            assert("track"@.len() != "road"@.len());
        },
        Highway::pedestrian => {
            reveal_strlit("pedestrian");
            reveal_strlit("motorway");
            assert("motorway"@.len() != "pedestrian"@.len());
            reveal_strlit("trunk");
            assert("trunk"@.len() != "pedestrian"@.len());
            reveal_strlit("primary");
            assert("primary"@.len() != "pedestrian"@.len());
            reveal_strlit("secondary");
            assert("secondary"@.len() != "pedestrian"@.len());
            reveal_strlit("tertiary");
            assert("tertiary"@.len() != "pedestrian"@.len());
            reveal_strlit("motorway_link");
            assert("motorway_link"@.len() != "pedestrian"@.len());
            reveal_strlit("trunk_link");
            assert("trunk_link"@[0] != "pedestrian"@[0]);
            reveal_strlit("primary_link");
            assert("primary_link"@.len() != "pedestrian"@.len());
            reveal_strlit("secondary_link");
            assert("secondary_link"@.len() != "pedestrian"@.len());
            reveal_strlit("tertiary_link");
            assert("tertiary_link"@.len() != "pedestrian"@.len());
            reveal_strlit("unclassified");
            assert("unclassified"@.len() != "pedestrian"@.len());
            reveal_strlit("residential");
            assert("residential"@.len() != "pedestrian"@.len());
        },
        Highway::footway => {
            reveal_strlit("footway");
            reveal_strlit("motorway");
            assert("motorway"@.len() != "footway"@.len());
            reveal_strlit("trunk");
            assert("trunk"@.len() != "footway"@.len());
            reveal_strlit("primary");
            assert("primary"@[0] != "footway"@[0]);
            reveal_strlit("secondary");
            assert("secondary"@.len() != "footway"@.len());
            reveal_strlit("tertiary");
            assert("tertiary"@.len() != "footway"@.len());
            reveal_strlit("motorway_link");
            assert("motorway_link"@.len() != "footway"@.len());
            reveal_strlit("trunk_link");
            assert("trunk_link"@.len() != "footway"@.len());
            reveal_strlit("primary_link");
            assert("primary_link"@.len() != "footway"@.len());
            reveal_strlit("secondary_link");
            assert("secondary_link"@.len() != "footway"@.len());
            reveal_strlit("tertiary_link");
            assert("tertiary_link"@.len() != "footway"@.len());
            reveal_strlit("unclassified");
            assert("unclassified"@.len() != "footway"@.len());
            reveal_strlit("residential");
            assert("residential"@.len() != "footway"@.len());
            reveal_strlit("pedestrian");
            assert("pedestrian"@.len() != "footway"@.len());
            reveal_strlit("crossing");
            assert("crossing"@.len() != "footway"@.len());
            reveal_strlit("steps");
            assert("steps"@.len() != "footway"@.len());
            reveal_strlit("living_street");
            assert("living_street"@.len() != "footway"@.len());
            reveal_strlit("service");
            assert("service"@[0] != "footway"@[0]);
            reveal_strlit("track");
            assert("track"@.len() != "footway"@.len());
            reveal_strlit("road");
            assert("road"@.len() != "footway"@.len());
            reveal_strlit("busway");
            assert("busway"@.len() != "footway"@.len());
            reveal_strlit("platform");
            assert("platform"@.len() != "footway"@.len());
        },
        Highway::cycleway => {
            reveal_strlit("cycleway");
            reveal_strlit("motorway");
            assert("motorway"@[0] != "cycleway"@[0]);
            reveal_strlit("trunk");
            assert("trunk"@.len() != "cycleway"@.len());
            reveal_strlit("primary");
            assert("primary"@.len() != "cycleway"@.len());
            reveal_strlit("secondary");
            assert("secondary"@.len() != "cycleway"@.len());
            reveal_strlit("tertiary");
            assert("tertiary"@[0] != "cycleway"@[0]);
            reveal_strlit("motorway_link");
            assert("motorway_link"@.len() != "cycleway"@.len());
            reveal_strlit("trunk_link");
            assert("trunk_link"@.len() != "cycleway"@.len());
            reveal_strlit("primary_link");
            assert("primary_link"@.len() != "cycleway"@.len());
            reveal_strlit("secondary_link");
            assert("secondary_link"@.len() != "cycleway"@.len());
            reveal_strlit("tertiary_link");
            assert("tertiary_link"@.len() != "cycleway"@.len());
            reveal_strlit("unclassified");
            assert("unclassified"@.len() != "cycleway"@.len());
            reveal_strlit("residential");
            assert("residential"@.len() != "cycleway"@.len());
            reveal_strlit("pedestrian");
            assert("pedestrian"@.len() != "cycleway"@.len());
            reveal_strlit("crossing");
            assert("crossing"@[1] != "cycleway"@[1]);
            reveal_strlit("steps");
            assert("steps"@.len() != "cycleway"@.len());
            reveal_strlit("living_street");
            assert("living_street"@.len() != "cycleway"@.len());
            reveal_strlit("service");
            assert("service"@.len() != "cycleway"@.len());
            reveal_strlit("track");
            assert("track"@.len() != "cycleway"@.len());
            reveal_strlit("road");
            assert("road"@.len() != "cycleway"@.len());
            reveal_strlit("busway");
            assert("busway"@.len() != "cycleway"@.len());
            reveal_strlit("platform");
            assert("platform"@[0] != "cycleway"@[0]);
            reveal_strlit("footway");
            assert("footway"@.len() != "cycleway"@.len());
            reveal_strlit("bridleway");
            assert("bridleway"@.len() != "cycleway"@.len());
            reveal_strlit("path");
            assert("path"@.len() != "cycleway"@.len());
        },
        Highway::path => {
            reveal_strlit("path");
            reveal_strlit("motorway");
            assert("motorway"@.len() != "path"@.len());
            reveal_strlit("trunk");
            assert("trunk"@.len() != "path"@.len());
            reveal_strlit("primary");
            assert("primary"@.len() != "path"@.len());
            reveal_strlit("secondary");
            assert("secondary"@.len() != "path"@.len());
            reveal_strlit("tertiary");
            assert("tertiary"@.len() != "path"@.len());
            reveal_strlit("motorway_link");
            assert("motorway_link"@.len() != "path"@.len());
            reveal_strlit("trunk_link");
            assert("trunk_link"@.len() != "path"@.len());
            reveal_strlit("primary_link");
            assert("primary_link"@.len() != "path"@.len());
            reveal_strlit("secondary_link");
            assert("secondary_link"@.len() != "path"@.len());
            reveal_strlit("tertiary_link");
            assert("tertiary_link"@.len() != "path"@.len());
            reveal_strlit("unclassified");
            assert("unclassified"@.len() != "path"@.len());
            reveal_strlit("residential");
            assert("residential"@.len() != "path"@.len());
            reveal_strlit("pedestrian");
            assert("pedestrian"@.len() != "path"@.len());
            reveal_strlit("crossing");
            assert("crossing"@.len() != "path"@.len());
            reveal_strlit("steps");
            assert("steps"@.len() != "path"@.len());
            reveal_strlit("living_street");
            assert("living_street"@.len() != "path"@.len());
            reveal_strlit("service");
            assert("service"@.len() != "path"@.len());
            reveal_strlit("track");
            assert("track"@.len() != "path"@.len());
            reveal_strlit("road");
            assert("road"@[0] != "path"@[0]);
            reveal_strlit("busway");
            assert("busway"@.len() != "path"@.len());
            reveal_strlit("platform");
            assert("platform"@.len() != "path"@.len());
            reveal_strlit("footway");
            assert("footway"@.len() != "path"@.len());
            reveal_strlit("bridleway");
            assert("bridleway"@.len() != "path"@.len());
        },
        Highway::bridleway => {
            reveal_strlit("bridleway");
            reveal_strlit("motorway");
            assert("motorway"@.len() != "bridleway"@.len());
            reveal_strlit("trunk");
            assert("trunk"@.len() != "bridleway"@.len());
            reveal_strlit("primary");
            assert("primary"@.len() != "bridleway"@.len());
            reveal_strlit("secondary");
            assert("secondary"@[0] != "bridleway"@[0]);
            reveal_strlit("tertiary");
            assert("tertiary"@.len() != "bridleway"@.len());
            reveal_strlit("motorway_link");
            assert("motorway_link"@.len() != "bridleway"@.len());
            reveal_strlit("trunk_link");
            assert("trunk_link"@.len() != "bridleway"@.len());
            reveal_strlit("primary_link");
            assert("primary_link"@.len() != "bridleway"@.len());
            reveal_strlit("secondary_link");
            assert("secondary_link"@.len() != "bridleway"@.len());
            reveal_strlit("tertiary_link");
            assert("tertiary_link"@.len() != "bridleway"@.len());
            reveal_strlit("unclassified");
            assert("unclassified"@.len() != "bridleway"@.len());
            reveal_strlit("residential");
            assert("residential"@.len() != "bridleway"@.len());
            reveal_strlit("pedestrian");
            assert("pedestrian"@.len() != "bridleway"@.len());
            reveal_strlit("crossing");
            assert("crossing"@.len() != "bridleway"@.len());
            reveal_strlit("steps");
            assert("steps"@.len() != "bridleway"@.len());
            reveal_strlit("living_street");
            assert("living_street"@.len() != "bridleway"@.len());
            reveal_strlit("service");
            assert("service"@.len() != "bridleway"@.len());
            reveal_strlit("track");
            assert("track"@.len() != "bridleway"@.len());
            reveal_strlit("road");
            assert("road"@.len() != "bridleway"@.len());
            reveal_strlit("busway");
            assert("busway"@.len() != "bridleway"@.len());
            reveal_strlit("platform");
            assert("platform"@.len() != "bridleway"@.len());
            reveal_strlit("footway");
            assert("footway"@.len() != "bridleway"@.len());
        },
        _ => {},
    }
}

} // verus!
