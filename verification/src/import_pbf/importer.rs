//! The decisions of the PBF import: which way entries an OSM way yields,
//! which turn restrictions a relation states, and whether a file's features
//! can be read.

use std::collections::HashMap;
use vstd::prelude::*;

use super::tags::{builtin_speed_spec, named_has, opt_view, parse_max_speed, WayTags};
use super::tags_convert::{
    bicycle_contraflow_spec, directional_access_spec, highway_class_spec, oneway_reverse_spec,
    surface_quality_spec, way_flags_spec,
};
use crate::storage::access::AccessFlags;
use crate::storage::attrib::{HighwayClass, NodeFlags, SurfaceQuality, WayFlags};
use crate::storage::dim_restriction::DimRestriction;
use crate::storage::idindex::IdEntry;
use crate::storage::way::{Way, WayId};
use crate::storage::node::NodeId;
use crate::text::{starts_with, starts_with_spec, str_eq, trim_spec};

verus! {

/// `s` is the speed that a `maxspeed` value `raw` gives, `default` standing in
/// where there is no value or it names no speed: a key of `named` with the
/// trimmed value's text, else the built-in reading of the value.
pub open spec fn speed_from(named: Map<String, u8>, raw: Option<Seq<char>>, default: u8, s: u8) -> bool {
    match raw {
        None => s == default,
        Some(v) => {
            let t = trim_spec(v);
            if named_has(named, t) {
                exists|key: String| #[trigger] named.contains_key(key) && key@ == t && named[key] == s
            } else {
                s == match builtin_speed_spec(t) {
                    Some(x) => x,
                    None => default,
                }
            }
        },
    }
}

fn speed_or(raw: Option<&str>, named: &HashMap<String, u8>, default: u8) -> (s: u8)
    ensures
        speed_from(named@, opt_view(raw), default, s),
{
    match raw {
        None => default,
        Some(v) => match parse_max_speed(v, named) {
            Some(s) => s,
            None => default,
        },
    }
}

/// The forward and backward speeds (km/h, 0 = none) of a way: the direction's
/// own `maxspeed:forward` / `maxspeed:backward`, else `maxspeed`, else 0.
pub fn way_speeds(tags: &WayTags, named: &HashMap<String, u8>) -> (r: (u8, u8))
    ensures
        exists|base: u8|
            speed_from(named@, tags@.raw_max_speed, 0, base) && speed_from(
                named@,
                tags@.raw_max_speed_forward,
                base,
                r.0,
            ) && speed_from(named@, tags@.raw_max_speed_backward, base, r.1),
{
    let base = speed_or(tags.raw_max_speed, named, 0);
    let fwd = speed_or(tags.raw_max_speed_forward, named, base);
    let bwd = speed_or(tags.raw_max_speed_backward, named, base);
    (fwd, bwd)
}

/// The access flags of the unused direction of a oneway way open to
/// bicycles both ways: closed to motor vehicles.
pub const CONTRAFLOW_ACCESS: u8 = 0x07;

/// One way entry with the attributes that all entries of a way share.
pub open spec fn way_entry(
    id: WayId,
    highway: HighwayClass,
    surface: SurfaceQuality,
    dim: DimRestriction,
    node_refs_idx: u64,
    node_refs_count: u16,
    flags: u16,
    access: u8,
    speed: u8,
) -> Way {
    Way {
        id,
        flags: WayFlags(flags),
        highway,
        surface_quality: surface,
        access: AccessFlags(access),
        max_speed: speed,
        dim,
        node_refs_idx,
        node_refs_count,
    }
}

/// The way entries that an OSM way yields, in order:
/// - none when the way is excluded from routing;
/// - a oneway way without bicycle contraflow: one entry for its direction;
/// - a oneway way with bicycle contraflow: a forward and a backward entry
///   marked as a pair, the direction against the oneway closed to motor vehicles;
/// - a two-way way whose directions differ in access or speed: a forward and
///   a backward entry marked as a pair, whose reference count field holds the
///   low 16 bits of the references' position, not their number;
/// - any other way: one entry for both directions, with no direction flag.
pub open spec fn way_entries_spec(
    id: WayId,
    tags: WayTags,
    dim: DimRestriction,
    fwd_speed: u8,
    bwd_speed: u8,
    node_refs_idx: u64,
    node_refs_len: usize,
) -> Seq<Way> {
    let highway = highway_class_spec(tags.highway);
    let surface = surface_quality_spec(tags.smoothness, tags.tracktype, tags.surface);
    let flags = way_flags_spec(tags);
    let fwd_access = directional_access_spec(tags, highway, true);
    let bwd_access = directional_access_spec(tags, highway, false);
    let oneway = flags & WayFlags::ONEWAY == WayFlags::ONEWAY;
    let reverse = oneway_reverse_spec(tags);
    let contraflow = bicycle_contraflow_spec(tags);
    let paired = flags | WayFlags::HAS_PAIR;
    if tags.is_excluded_spec() {
        seq![]
    } else if oneway && !contraflow {
        seq![
            way_entry(
                id,
                highway,
                surface,
                dim,
                node_refs_idx,
                node_refs_len as u16,
                flags | (if reverse {
                    WayFlags::DIRECTION_BACKWARD
                } else {
                    WayFlags::DIRECTION_FORWARD
                }),
                if reverse {
                    bwd_access
                } else {
                    fwd_access
                },
                if reverse {
                    bwd_speed
                } else {
                    fwd_speed
                },
            ),
        ]
    } else if oneway {
        seq![
            way_entry(
                id,
                highway,
                surface,
                dim,
                node_refs_idx,
                node_refs_len as u16,
                paired | WayFlags::DIRECTION_FORWARD,
                if reverse {
                    CONTRAFLOW_ACCESS
                } else {
                    fwd_access
                },
                fwd_speed,
            ),
            way_entry(
                id,
                highway,
                surface,
                dim,
                node_refs_idx,
                node_refs_len as u16,
                paired | WayFlags::DIRECTION_BACKWARD,
                if reverse {
                    bwd_access
                } else {
                    CONTRAFLOW_ACCESS
                },
                bwd_speed,
            ),
        ]
    } else if fwd_access != bwd_access || fwd_speed != bwd_speed {
        seq![
            way_entry(
                id,
                highway,
                surface,
                dim,
                node_refs_idx,
                node_refs_idx as u16,
                paired | WayFlags::DIRECTION_FORWARD,
                fwd_access,
                fwd_speed,
            ),
            way_entry(
                id,
                highway,
                surface,
                dim,
                node_refs_idx,
                node_refs_idx as u16,
                paired | WayFlags::DIRECTION_BACKWARD,
                bwd_access,
                bwd_speed,
            ),
        ]
    } else {
        seq![way_entry(id, highway, surface, dim, node_refs_idx, node_refs_len as u16, flags, fwd_access, fwd_speed)]
    }
}

/// The way entries that an OSM way yields (see [`way_entries_spec`]), given
/// its dimension restriction, its speeds per direction and the position and
/// number of its node references.
pub fn way_entries(
    id: WayId,
    tags: &WayTags,
    dim: DimRestriction,
    fwd_speed: u8,
    bwd_speed: u8,
    node_refs_idx: u64,
    node_refs_len: usize,
) -> (r: Vec<Way>)
    ensures
        r@ == way_entries_spec(id, *tags, dim, fwd_speed, bwd_speed, node_refs_idx, node_refs_len),
{
    let mut out: Vec<Way> = Vec::new();
    if tags.is_excluded() {
        proof {
            assert(out@ =~= way_entries_spec(id, *tags, dim, fwd_speed, bwd_speed, node_refs_idx, node_refs_len));
        }
        return out;
    }
    let highway = tags.highway_class();
    let surface = tags.surface_quality();
    let flags = tags.derive_way_flags().bits();
    let fwd_access = tags.derive_directional_access(highway, true).bits();
    let bwd_access = tags.derive_directional_access(highway, false).bits();
    let oneway = flags & WayFlags::ONEWAY == WayFlags::ONEWAY;
    let reverse = tags.is_oneway_reverse();
    let contraflow = tags.is_bicycle_contraflow();
    let count: u16 = #[verifier::truncate] (node_refs_len as u16);
    let idx_count: u16 = #[verifier::truncate] (node_refs_idx as u16);
    let paired = flags | WayFlags::HAS_PAIR;
    if oneway && !contraflow {
        let dir = if reverse {
            WayFlags::DIRECTION_BACKWARD
        } else {
            WayFlags::DIRECTION_FORWARD
        };
        out.push(
            Way {
                id,
                flags: WayFlags(flags | dir),
                highway,
                surface_quality: surface,
                access: AccessFlags(
                    if reverse {
                        bwd_access
                    } else {
                        fwd_access
                    },
                ),
                max_speed: if reverse {
                    bwd_speed
                } else {
                    fwd_speed
                },
                dim,
                node_refs_idx,
                node_refs_count: count,
            },
        );
    } else if oneway {
        let (fwd_acc, bwd_acc) = if reverse {
            (CONTRAFLOW_ACCESS, bwd_access)
        } else {
            (fwd_access, CONTRAFLOW_ACCESS)
        };
        out.push(
            Way {
                id,
                flags: WayFlags(paired | WayFlags::DIRECTION_FORWARD),
                highway,
                surface_quality: surface,
                access: AccessFlags(fwd_acc),
                max_speed: fwd_speed,
                dim,
                node_refs_idx,
                node_refs_count: count,
            },
        );
        out.push(
            Way {
                id,
                flags: WayFlags(paired | WayFlags::DIRECTION_BACKWARD),
                highway,
                surface_quality: surface,
                access: AccessFlags(bwd_acc),
                max_speed: bwd_speed,
                dim,
                node_refs_idx,
                node_refs_count: count,
            },
        );
    } else if fwd_access != bwd_access || fwd_speed != bwd_speed {
        out.push(
            Way {
                id,
                flags: WayFlags(paired | WayFlags::DIRECTION_FORWARD),
                highway,
                surface_quality: surface,
                access: AccessFlags(fwd_access),
                max_speed: fwd_speed,
                dim,
                node_refs_idx,
                node_refs_count: idx_count,
            },
        );
        out.push(
            Way {
                id,
                flags: WayFlags(paired | WayFlags::DIRECTION_BACKWARD),
                highway,
                surface_quality: surface,
                access: AccessFlags(bwd_access),
                max_speed: bwd_speed,
                dim,
                node_refs_idx,
                node_refs_count: idx_count,
            },
        );
    } else {
        out.push(
            Way {
                id,
                flags: WayFlags(flags),
                highway,
                surface_quality: surface,
                access: AccessFlags(fwd_access),
                max_speed: fwd_speed,
                dim,
                node_refs_idx,
                node_refs_count: count,
            },
        );
    }
    proof {
        assert(out@ =~= way_entries_spec(id, *tags, dim, fwd_speed, bwd_speed, node_refs_idx, node_refs_len));
    }
    out
}

proof fn lemma_way_flag_bits(tags: WayTags)
    ensures
        way_flags_spec(tags) & 0x0700u16 == 0,
{
    let o: u16 = if tags.oneway@ == super::tags::CondView::Single(super::tags::OneWay::yes) || tags.oneway@
        == super::tags::CondView::Single(super::tags::OneWay::reverse) || (tags.junction matches Some(j) && (j
        == super::tags::Junction::roundabout || j == super::tags::Junction::circular)) {
        WayFlags::ONEWAY
    } else {
        0
    };
    let t: u16 = if tags.toll == Some(true) {
        WayFlags::TOLL
    } else {
        0
    };
    let u: u16 = if tags.tunnel {
        WayFlags::TUNNEL
    } else {
        0
    };
    let b: u16 = if tags.bridge {
        WayFlags::BRIDGE
    } else {
        0
    };
    assert(way_flags_spec(tags) == o | t | u | b);
    assert((o | t | u | b) & 0x0700u16 == 0) by (bit_vector)
        requires
            o == 0 || o == 1,
            t == 0 || t == 2,
            u == 0 || u == 0x40,
            b == 0 || b == 0x80,
    ;
}

/// Whether a way entry's flags mark it as serving its way's forward direction
/// only, as one of a pair.
pub open spec fn is_forward_of_pair(w: Way) -> bool {
    &&& w.flags.0 & WayFlags::DIRECTION_FORWARD != 0
    &&& w.flags.0 & WayFlags::HAS_PAIR != 0
    &&& w.flags.0 & WayFlags::DIRECTION_BACKWARD == 0
}

/// Whether a way entry's flags mark it as serving its way's backward direction
/// only, as one of a pair.
pub open spec fn is_backward_of_pair(w: Way) -> bool {
    &&& w.flags.0 & WayFlags::DIRECTION_BACKWARD != 0
    &&& w.flags.0 & WayFlags::HAS_PAIR != 0
    &&& w.flags.0 & WayFlags::DIRECTION_FORWARD == 0
}

/// The entries of a way follow the layout of the way table: at most two; two
/// entries share the way's id, the first marked forward and the second
/// backward, both as a pair; a single entry is never marked as a pair, and a
/// single entry of a two-way way carries no direction flag, so it covers both
/// directions.
pub proof fn lemma_way_entries_layout(
    id: WayId,
    tags: WayTags,
    dim: DimRestriction,
    fwd_speed: u8,
    bwd_speed: u8,
    node_refs_idx: u64,
    node_refs_len: usize,
)
    ensures
        ({
            let r = way_entries_spec(id, tags, dim, fwd_speed, bwd_speed, node_refs_idx, node_refs_len);
            &&& r.len() <= 2
            &&& r.len() == 0 <==> tags.is_excluded_spec()
            &&& forall|i: int| 0 <= i < r.len() ==> (#[trigger] r[i]).id == id
            &&& r.len() == 2 ==> is_forward_of_pair(r[0]) && is_backward_of_pair(r[1])
            &&& r.len() == 1 ==> r[0].flags.0 & WayFlags::HAS_PAIR == 0
            &&& r.len() == 1 && way_flags_spec(tags) & WayFlags::ONEWAY == 0 ==> r[0].flags.0
                & WayFlags::DIRECTION_FORWARD == 0 && r[0].flags.0 & WayFlags::DIRECTION_BACKWARD == 0
        }),
{
    lemma_way_flag_bits(tags);
    let f = way_flags_spec(tags);
    assert({
        &&& (f | 0x0400u16 | 0x0100u16) & 0x0100u16 != 0
        &&& (f | 0x0400u16 | 0x0100u16) & 0x0400u16 != 0
        &&& (f | 0x0400u16 | 0x0100u16) & 0x0200u16 == 0
        &&& (f | 0x0400u16 | 0x0200u16) & 0x0200u16 != 0
        &&& (f | 0x0400u16 | 0x0200u16) & 0x0400u16 != 0
        &&& (f | 0x0400u16 | 0x0200u16) & 0x0100u16 == 0
        &&& (f | 0x0100u16) & 0x0400u16 == 0
        &&& (f | 0x0200u16) & 0x0400u16 == 0
        &&& f & 0x0400u16 == 0
        &&& f & 0x0100u16 == 0
        &&& f & 0x0200u16 == 0
    }) by (bit_vector)
        requires
            f & 0x0700u16 == 0,
    ;
}

/// The kind of object that a relation member refers to.
#[derive(Copy, Clone, Debug, PartialEq, Eq, Structural)]
pub enum MemberType {
    Node,
    Way,
    Relation,
}

/// A member of an OSM relation: what it refers to and in which role.
#[derive(Copy, Clone, Debug)]
pub struct RelationMember<'a> {
    pub member_type: MemberType,
    pub role: &'a str,
    pub id: i64,
}

/// A parsed turn restriction from an OSM `type=restriction` relation.
/// Only simple via-node restrictions are captured; complex via-way
/// restrictions are ignored.
#[derive(Copy, Clone, Debug)]
pub struct RawRestriction {
    pub from_way_id: i64,
    pub via_node_id: i64,
    pub to_way_id: i64,
    /// `true` = `only_*` restriction, `false` = `no_*` restriction.
    pub only: bool,
    /// Vehicles affected (0 = all vehicles).
    pub vehicle_mask: AccessFlags,
}

/// Whether a tag key names a restriction: `restriction` or `restriction:<mode>`.
pub open spec fn is_restriction_key(k: Seq<char>) -> bool {
    k == "restriction"@ || starts_with_spec(k, "restriction:"@)
}

/// The value of the last restriction tag among `tags`.
pub open spec fn restriction_value(tags: Seq<(&str, &str)>) -> Option<Seq<char>>
    decreases tags.len(),
{
    if tags.len() == 0 {
        None
    } else if is_restriction_key(tags.last().0@) {
        Some(tags.last().1@)
    } else {
        restriction_value(tags.drop_last())
    }
}

/// The id of the last member of the given type and role.
pub open spec fn last_member(members: Seq<RelationMember>, t: MemberType, role: Seq<char>) -> Option<i64>
    decreases members.len(),
{
    if members.len() == 0 {
        None
    } else if members.last().member_type == t && members.last().role@ == role {
        Some(members.last().id)
    } else {
        last_member(members.drop_last(), t, role)
    }
}

/// The turn restriction that a relation states: its restriction tag must
/// start with `only_` or `no_`, and it needs a `from` way, a `via` node and a
/// `to` way (the last of each counts).
pub open spec fn restriction_spec(tags: Seq<(&str, &str)>, members: Seq<RelationMember>) -> Option<RawRestriction> {
    match restriction_value(tags) {
        None => None,
        Some(v) => {
            let only = starts_with_spec(v, "only_"@);
            if !only && !starts_with_spec(v, "no_"@) {
                None
            } else {
                match (
                    last_member(members, MemberType::Way, "from"@),
                    last_member(members, MemberType::Node, "via"@),
                    last_member(members, MemberType::Way, "to"@),
                ) {
                    (Some(from), Some(via_node), Some(to)) => Some(
                        RawRestriction {
                            from_way_id: from,
                            via_node_id: via_node,
                            to_way_id: to,
                            only,
                            vehicle_mask: AccessFlags(0),
                        },
                    ),
                    _ => None,
                }
            }
        },
    }
}

/// Reads a turn restriction from the tags and members of a relation (see
/// [`restriction_spec`]).
pub fn parse_restriction(tags: &Vec<(&str, &str)>, members: &Vec<RelationMember>) -> (r: Option<RawRestriction>)
    ensures
        r == restriction_spec(tags@, members@),
{
    let mut value: Option<&str> = None;
    let mut i: usize = 0;
    while i < tags.len()
        invariant
            i <= tags@.len(),
            opt_view(value) == restriction_value(tags@.take(i as int)),
        decreases tags.len() - i,
    {
        let (k, v) = tags[i];
        proof {
            assert(tags@.take(i + 1).drop_last() =~= tags@.take(i as int));
        }
        if str_eq(k, "restriction") || starts_with(k, "restriction:") {
            value = Some(v);
        }
        i = i + 1;
    }
    proof {
        assert(tags@.take(tags@.len() as int) =~= tags@);
    }
    let restriction = match value {
        None => {
            return None;
        },
        Some(v) => v,
    };
    let only = starts_with(restriction, "only_");
    if !only && !starts_with(restriction, "no_") {
        return None;
    }
    let mut from: Option<i64> = None;
    let mut via_node: Option<i64> = None;
    let mut to: Option<i64> = None;
    let mut j: usize = 0;
    while j < members.len()
        invariant
            j <= members@.len(),
            from == last_member(members@.take(j as int), MemberType::Way, "from"@),
            via_node == last_member(members@.take(j as int), MemberType::Node, "via"@),
            to == last_member(members@.take(j as int), MemberType::Way, "to"@),
        decreases members.len() - j,
    {
        let m = members[j];
        proof {
            assert(members@.take(j + 1).drop_last() =~= members@.take(j as int));
        }
        if m.member_type == MemberType::Way && str_eq(m.role, "from") {
            from = Some(m.id);
        } else if m.member_type == MemberType::Node && str_eq(m.role, "via") {
            via_node = Some(m.id);
        } else if m.member_type == MemberType::Way && str_eq(m.role, "to") {
            to = Some(m.id);
        }
        proof {
            reveal_strlit("from");
            reveal_strlit("to");
            assert("from"@.len() != "to"@.len());
        }
        j = j + 1;
    }
    proof {
        assert(members@.take(members@.len() as int) =~= members@);
    }
    match (from, via_node, to) {
        (Some(f), Some(v), Some(t)) => Some(
            RawRestriction { from_way_id: f, via_node_id: v, to_way_id: t, only, vehicle_mask: AccessFlags(0) },
        ),
        _ => None,
    }
}

/// The file features that the importer can read.
pub const SUPPORTED_FEATURES: [&'static str; 2] = ["OsmSchema-V0.6", "DenseNodes"];

/// The optional file features that the importer relies on.
pub const REQUIRED_FEATURES: [&'static str; 1] = ["Sort.Type_then_ID"];

/// Why an import cannot go on.
#[derive(Clone, Debug)]
pub enum Error {
    /// The file requires a feature that the importer cannot read.
    UnsupportedFeature(String),
    /// The file lacks a feature that the importer relies on.
    FeatureRequired(&'static str),
    /// The file's objects are not sorted by type and id.
    NotSorted,
    /// A way refers to a node that the file does not hold.
    NodeIdNotFound(NodeId),
    /// A relation refers to a way that the file does not hold.
    WayIdNotFound(WayId),
}

/// Whether `s` is one of `list`.
pub open spec fn listed(list: Seq<&str>, s: Seq<char>) -> bool {
    exists|i: int| 0 <= i < list.len() && (#[trigger] list[i])@ == s
}

/// The first required feature that is not supported, if any.
pub open spec fn first_unsupported(required: Seq<String>) -> Option<Seq<char>>
    decreases required.len(),
{
    if required.len() == 0 {
        None
    } else if !listed(SUPPORTED_FEATURES@, required[0]@) {
        Some(required[0]@)
    } else {
        first_unsupported(required.drop_first())
    }
}

/// Whether `name` is among the optional features of the file.
pub open spec fn offered(optional: Seq<String>, name: Seq<char>) -> bool {
    exists|i: int| 0 <= i < optional.len() && (#[trigger] optional[i])@ == name
}

fn is_listed(list: &[&str], s: &str) -> (r: bool)
    ensures
        r == listed(list@, s@),
{
    let mut i: usize = 0;
    while i < list.len()
        invariant
            i <= list@.len(),
            forall|j: int| 0 <= j < i ==> (#[trigger] list@[j])@ != s@,
        decreases list.len() - i,
    {
        if str_eq(list[i], s) {
            return true;
        }
        i = i + 1;
    }
    false
}

fn is_offered(optional: &Vec<String>, name: &str) -> (r: bool)
    ensures
        r == offered(optional@, name@),
{
    let mut i: usize = 0;
    while i < optional.len()
        invariant
            i <= optional@.len(),
            forall|j: int| 0 <= j < i ==> (#[trigger] optional@[j])@ != name@,
        decreases optional.len() - i,
    {
        if str_eq(optional[i].as_str(), name) {
            return true;
        }
        i = i + 1;
    }
    false
}

/// Checks a file's features: the first required feature that is not
/// supported is reported, then the first feature the importer relies on that
/// the file does not offer.
pub fn check_features(required: &Vec<String>, optional: &Vec<String>) -> (r: Result<(), Error>)
    ensures
        match first_unsupported(required@) {
            Some(f) => r matches Err(Error::UnsupportedFeature(s)) && s@ == f,
            None => if !offered(optional@, REQUIRED_FEATURES@[0]@) {
                r matches Err(Error::FeatureRequired(s)) && s@ == REQUIRED_FEATURES@[0]@
            } else {
                r is Ok
            },
        },
{
    let mut i: usize = 0;
    proof {
        assert(required@.skip(0) =~= required@);
    }
    while i < required.len()
        invariant
            i <= required@.len(),
            first_unsupported(required@) == first_unsupported(required@.skip(i as int)),
        decreases required.len() - i,
    {
        proof {
            assert(required@.skip(i as int)[0] == required@[i as int]);
            assert(required@.skip(i as int).drop_first() =~= required@.skip(i + 1));
        }
        if !is_listed(&SUPPORTED_FEATURES, required[i].as_str()) {
            return Err(Error::UnsupportedFeature(required[i].clone()));
        }
        i = i + 1;
    }
    proof {
        assert(required@.skip(i as int) =~= Seq::<String>::empty());
    }
    let feat = REQUIRED_FEATURES[0];
    if !is_offered(optional, feat) {
        return Err(Error::FeatureRequired(feat));
    }
    Ok(())
}

/// `std::path::PathBuf`, a file system path.
#[verifier::external_type_specification]
#[verifier::external_body]
pub struct ExPathBuf(std::path::PathBuf);

/// `PathBuf::from` on a string slice: the path with that text. Nothing is
/// claimed of the result: the library keeps no model of a path's contents.
#[verifier::external_body]
fn path_from(s: &str) -> (r: std::path::PathBuf) {
    std::path::PathBuf::from(s)
}

/// The settings of an import: where the tables go, what the OSM data is read
/// from, where country boundaries come from, and named maxspeed overrides.
pub struct Importer<R> {
    target_dir: std::path::PathBuf,
    read: R,
    country_boundaries: Option<std::path::PathBuf>,
    maxspeed: HashMap<String, u8>,
}

impl<R> Importer<R> {
    /// The directory the tables are written to.
    pub closed spec fn target_dir_spec(&self) -> std::path::PathBuf {
        self.target_dir
    }

    /// The source of the OSM data.
    pub closed spec fn read_spec(&self) -> R {
        self.read
    }

    /// The file with country boundaries, if any.
    pub closed spec fn country_boundaries_spec(&self) -> Option<std::path::PathBuf> {
        self.country_boundaries
    }

    /// The named maxspeed overrides.
    pub closed spec fn maxspeed_spec(&self) -> HashMap<String, u8> {
        self.maxspeed
    }

    /// An import of `read` into the directory `storage`, without country
    /// boundaries or maxspeed overrides.
    pub fn from_buf_read(read: R) -> (r: Self)
        ensures
            r.read_spec() == read,
            r.country_boundaries_spec() is None,
            r.maxspeed_spec()@ == Map::<String, u8>::empty(),
    {
        Importer { target_dir: path_from("storage"), read, country_boundaries: None, maxspeed: HashMap::new() }
    }

    /// The same import into `dir`.
    pub fn with_target_dir(self, dir: std::path::PathBuf) -> (r: Self)
        ensures
            r.target_dir_spec() == dir,
            r.read_spec() == self.read_spec(),
            r.country_boundaries_spec() == self.country_boundaries_spec(),
            r.maxspeed_spec() == self.maxspeed_spec(),
    {
        Importer { target_dir: dir, ..self }
    }

    /// The same import with country boundaries read from `path`.
    pub fn with_country_boundaries(self, path: std::path::PathBuf) -> (r: Self)
        ensures
            r.country_boundaries_spec() == Some(path),
            r.target_dir_spec() == self.target_dir_spec(),
            r.read_spec() == self.read_spec(),
            r.maxspeed_spec() == self.maxspeed_spec(),
    {
        Importer { country_boundaries: Some(path), ..self }
    }

    /// The same import with the given named maxspeed overrides.
    pub fn with_maxspeed(self, overrides: HashMap<String, u8>) -> (r: Self)
        ensures
            r.maxspeed_spec() == overrides,
            r.target_dir_spec() == self.target_dir_spec(),
            r.read_spec() == self.read_spec(),
            r.country_boundaries_spec() == self.country_boundaries_spec(),
    {
        Importer { maxspeed: overrides, ..self }
    }

    /// The parts of the import: target directory, source, boundaries, overrides.
    pub fn into_parts(self) -> (r: (std::path::PathBuf, R, Option<std::path::PathBuf>, HashMap<String, u8>))
        ensures
            r.0 == self.target_dir_spec(),
            r.1 == self.read_spec(),
            r.2 == self.country_boundaries_spec(),
            r.3 == self.maxspeed_spec(),
    {
        (self.target_dir, self.read, self.country_boundaries, self.maxspeed)
    }
}

/// The entries of the way id index, one per way in table order: the way's
/// OSM id as the key and its row as the index.
pub fn way_id_entries(ways: &[Way]) -> (r: Vec<IdEntry>)
    ensures
        r@.len() == ways@.len(),
        forall|i: int|
            0 <= i < ways@.len() ==> (#[trigger] r@[i]).key == ways@[i].id.0 as u64 && r@[i].idx == i as u64,
{
    let mut r: Vec<IdEntry> = Vec::new();
    let mut i: usize = 0;
    while i < ways.len()
        invariant
            i <= ways@.len(),
            r@.len() == i,
            forall|j: int| 0 <= j < i ==> (#[trigger] r@[j]).key == ways@[j].id.0 as u64 && r@[j].idx == j as u64,
        decreases ways.len() - i,
    {
        r.push(IdEntry { key: ways[i].id.0 as u64, idx: i as u64 });
        i = i + 1;
    }
    r
}

/// `order` lists every position below `n` once.
pub open spec fn is_order(order: Seq<usize>, n: nat) -> bool {
    &&& order.len() == n
    &&& forall|k: int| 0 <= k < n ==> (#[trigger] order[k]) < n
    &&& forall|k: int, l: int| 0 <= k < l < n ==> order[k] != order[l]
}

/// The ways in a new order: the `k`-th is the way at `order[k]`.
pub fn reorder_ways(ways: &[Way], order: &Vec<usize>) -> (r: Vec<Way>)
    requires
        is_order(order@, ways@.len()),
    ensures
        r@.len() == ways@.len(),
        forall|k: int| 0 <= k < ways@.len() ==> #[trigger] r@[k] == ways@[order@[k] as int],
{
    let mut r: Vec<Way> = Vec::new();
    let mut k: usize = 0;
    while k < order.len()
        invariant
            is_order(order@, ways@.len()),
            k <= order@.len(),
            r@.len() == k,
            forall|j: int| 0 <= j < k ==> #[trigger] r@[j] == ways@[order@[j] as int],
        decreases order.len() - k,
    {
        r.push(ways[order[k]]);
        k = k + 1;
    }
    r
}

/// Points the way id index at the ways' new rows: the entry of the way that
/// moved from `order[k]` gets row `k`; keys stay.
pub fn renumber_entries(entries: &mut Vec<IdEntry>, order: &Vec<usize>)
    requires
        is_order(order@, old(entries)@.len()),
        old(entries)@.len() <= u64::MAX,
    ensures
        final(entries)@.len() == old(entries)@.len(),
        forall|i: int| 0 <= i < old(entries)@.len() ==> (#[trigger] final(entries)@[i]).key == old(entries)@[i].key,
        forall|k: int| 0 <= k < old(entries)@.len() ==> (#[trigger] final(entries)@[order@[k] as int]).idx == k as u64,
{
    let ghost start = entries@;
    let mut k: usize = 0;
    while k < order.len()
        invariant
            is_order(order@, start.len()),
            k <= order@.len(),
            start.len() <= u64::MAX,
            entries@.len() == start.len(),
            forall|i: int| 0 <= i < start.len() ==> (#[trigger] entries@[i]).key == start[i].key,
            forall|j: int| 0 <= j < k ==> (#[trigger] entries@[order@[j] as int]).idx == j as u64,
        decreases order.len() - k,
    {
        let p = order[k];
        let mut e = entries[p];
        e.idx = k as u64;
        entries.set(p, e);
        proof {
            assert forall|j: int| 0 <= j < k + 1 implies (#[trigger] entries@[order@[j] as int]).idx == j as u64 by {
                if j < k {
                    assert(order@[j] != order@[k as int]);
                }
            }
        }
        k = k + 1;
    }
}

/// Every position below `n` appears in an order.
proof fn lemma_order_onto(order: Seq<usize>, n: nat, i: usize)
    requires
        is_order(order, n),
        i < n,
    ensures
        exists|k: int| 0 <= k < n && order[k] == i,
{
    assert(order.no_duplicates()) by {
        assert forall|k: int, l: int| 0 <= k < order.len() && 0 <= l < order.len() && k != l implies order[k]
            != order[l] by {
            if l < k {
                assert(order[l] != order[k]);
            }
        }
    }
    order.unique_seq_to_set();
    let s = order.to_set();
    if !s.contains(i) {
        vstd::seq_lib::seq_to_set_is_finite(order);
        let t = s.insert(i);
        assert forall|v: usize| #[trigger] t.contains(v) implies v < n by {
            if v != i {
                assert(s.contains(v));
                let k = choose|k: int| 0 <= k < order.len() && order[k] == v;
                assert(order[k] < n);
            }
        }
        crate::algorithm::queue::lemma_indices_len(t, n);
        assert(false);
    }
    let k = choose|k: int| 0 <= k < order.len() && order[k] == i;
    assert(order[k] == i);
}

/// Moving the ways into a new order and renumbering the way id index with the
/// same order keeps the index right: the entry made for the way at row `i`
/// keeps that way's id and points at the row where the way now stands.
pub proof fn lemma_renumbered_index_finds_ways(
    ways: Seq<Way>,
    order: Seq<usize>,
    entries: Seq<IdEntry>,
    reordered: Seq<Way>,
    renumbered: Seq<IdEntry>,
)
    requires
        ways.len() <= usize::MAX,
        is_order(order, ways.len()),
        entries.len() == ways.len(),
        forall|i: int| 0 <= i < ways.len() ==> (#[trigger] entries[i]).key == ways[i].id.0 as u64 && entries[i].idx == i as u64,
        reordered.len() == ways.len(),
        forall|k: int| 0 <= k < ways.len() ==> #[trigger] reordered[k] == ways[order[k] as int],
        renumbered.len() == entries.len(),
        forall|i: int| 0 <= i < entries.len() ==> (#[trigger] renumbered[i]).key == entries[i].key,
        forall|k: int| 0 <= k < entries.len() ==> (#[trigger] renumbered[order[k] as int]).idx == k as u64,
    ensures
        forall|i: int|
            0 <= i < ways.len() ==> {
                &&& (#[trigger] renumbered[i]).key == ways[i].id.0 as u64
                &&& renumbered[i].idx < ways.len()
                &&& reordered[renumbered[i].idx as int] == ways[i]
            },
{
    assert forall|i: int| 0 <= i < ways.len() implies {
        &&& (#[trigger] renumbered[i]).key == ways[i].id.0 as u64
        &&& renumbered[i].idx < ways.len()
        &&& reordered[renumbered[i].idx as int] == ways[i]
    } by {
        lemma_order_onto(order, ways.len(), i as usize);
        let k = choose|k: int| 0 <= k < ways.len() && order[k] == i as usize;
        assert(order[k] as int == i);
        assert(renumbered[order[k] as int].idx == k as u64);
        assert(renumbered[i].idx as int == k);
        assert(reordered[k] == ways[order[k] as int]);
    }
}

/// The ids are strictly ascending.
pub open spec fn strictly_ascending(ids: Seq<i64>) -> bool {
    forall|i: int, j: int| 0 <= i < j < ids.len() ==> ids[i] < ids[j]
}

/// How many of the first `n` references name `id`.
pub open spec fn refs_to(refs: Seq<i64>, n: int, id: i64) -> nat
    decreases n,
{
    if n <= 0 {
        0
    } else {
        refs_to(refs, n - 1, id) + if refs[n - 1] == id {
            1nat
        } else {
            0nat
        }
    }
}

/// A reference count of `c` after `k` more references, wrapping as the
/// count's atomic addition does.
pub open spec fn count_after(c: u32, k: nat) -> u32 {
    ((c + k) % 0x1_0000_0000) as u32
}

/// Some of `k` more references found the count of `c` at one: a second
/// reference arrived.
pub open spec fn second_reference(c: u32, k: nat) -> bool {
    exists|m: nat| m < k && #[trigger] finds_one(c, m)
}

/// The `m`-th further reference finds the count of `c` at one.
pub open spec fn finds_one(c: u32, m: nat) -> bool {
    (c + m) % 0x1_0000_0000 == 1
}

/// One of the first `n` references names `id` and is the first or the last
/// reference of the way.
pub open spec fn end_reference(refs: Seq<i64>, n: int, id: i64) -> bool {
    exists|j: int| 0 <= j < n && refs[j] == id && (j == 0 || j == refs.len() - 1)
}

/// The flags marked by resolving references: INTERSECTION and ENDPOINT.
pub open spec fn ref_flags(second: bool, end: bool) -> u8 {
    (if second {
        NodeFlags::INTERSECTION
    } else {
        0u8
    }) | (if end {
        NodeFlags::ENDPOINT
    } else {
        0u8
    })
}

/// The counts and flags after resolving the first `n` references: each node
/// counts the references to it, is marked INTERSECTION when one of them found
/// its count at one, and ENDPOINT when the first or last reference names it.
pub open spec fn resolved_upto(
    ids: Seq<i64>,
    refs: Seq<i64>,
    n: int,
    c0: Seq<u32>,
    f0: Seq<u8>,
    c: Seq<u32>,
    f: Seq<u8>,
) -> bool {
    &&& c.len() == ids.len()
    &&& f.len() == ids.len()
    &&& forall|k: int|
        0 <= k < ids.len() ==> (#[trigger] c[k]) == count_after(c0[k], refs_to(refs, n, ids[k])) && f[k] == f0[k]
            | ref_flags(second_reference(c0[k], refs_to(refs, n, ids[k])), end_reference(refs, n, ids[k]))
}

/// The first reference that names no node, if any.
pub open spec fn first_missing(ids: Seq<i64>, refs: Seq<i64>) -> Option<int> {
    if exists|j: int| 0 <= j < refs.len() && !ids.contains(#[trigger] refs[j]) {
        Some(choose|j: int| 0 <= j < refs.len() && !ids.contains(refs[j]) && forall|l: int| 0 <= l < j ==> ids.contains(#[trigger] refs[l]))
    } else {
        None
    }
}

proof fn lemma_flags_step(a: u8, s1: bool, e1: bool, s2: bool, e2: bool)
    ensures
        ((a | ref_flags(s1, e1)) | (if s2 { NodeFlags::INTERSECTION } else { 0u8 })) | (if e2 {
            NodeFlags::ENDPOINT
        } else {
            0u8
        }) == a | ref_flags(s1 || s2, e1 || e2),
{
    let x: u8 = if s1 { 0x40u8 } else { 0u8 };
    let y: u8 = if e1 { 0x80u8 } else { 0u8 };
    let x2: u8 = if s2 { 0x40u8 } else { 0u8 };
    let y2: u8 = if e2 { 0x80u8 } else { 0u8 };
    let xx: u8 = if s1 || s2 { 0x40u8 } else { 0u8 };
    let yy: u8 = if e1 || e2 { 0x80u8 } else { 0u8 };
    assert(((a | (x | y)) | x2) | y2 == a | (xx | yy)) by (bit_vector)
        requires
            x == 0 || x == 0x40,
            y == 0 || y == 0x80,
            x2 == 0 || x2 == 0x40,
            y2 == 0 || y2 == 0x80,
            xx == (if x == 0x40 || x2 == 0x40 { 0x40u8 } else { 0u8 }),
            yy == (if y == 0x80 || y2 == 0x80 { 0x80u8 } else { 0u8 }),
    ;
}

/// The position of `id` among strictly ascending ids.
fn node_position(ids: &Vec<i64>, id: i64) -> (r: Option<usize>)
    requires
        strictly_ascending(ids@),
    ensures
        r matches Some(p) ==> p < ids@.len() && ids@[p as int] == id,
        r is None ==> !ids@.contains(id),
{
    let mut lo: usize = 0;
    let mut hi: usize = ids.len();
    while lo < hi
        invariant
            lo <= hi <= ids@.len(),
            strictly_ascending(ids@),
            forall|j: int| 0 <= j < lo ==> ids@[j] < id,
            forall|j: int| hi <= j < ids@.len() ==> ids@[j] > id,
        decreases hi - lo,
    {
        let mid = lo + (hi - lo) / 2;
        if ids[mid] < id {
            lo = mid + 1;
        } else if ids[mid] > id {
            hi = mid;
        } else {
            return Some(mid);
        }
    }
    None
}

/// Resolves the node references of a way against the node table, whose ids
/// are strictly ascending: each reference becomes the row of its node, the
/// node's reference count grows by one (wrapping, as an atomic count does),
/// a node is marked INTERSECTION when a reference finds its count at one, and
/// the nodes of the first and last reference are marked ENDPOINT. Stops with
/// `Err` at the first reference to a node that the table lacks, the
/// references before it having been counted and marked.
pub fn resolve_way_refs(node_ids: &Vec<i64>, refs: &Vec<i64>, num_refs: &mut Vec<u32>, flags: &mut Vec<u8>) -> (r:
    Result<Vec<u64>, i64>)
    requires
        strictly_ascending(node_ids@),
        old(num_refs)@.len() == node_ids@.len(),
        old(flags)@.len() == node_ids@.len(),
        refs@.len() >= 1,
    ensures
        match first_missing(node_ids@, refs@) {
            Some(j) => r == Err::<Vec<u64>, i64>(refs@[j]) && resolved_upto(
                node_ids@,
                refs@,
                j,
                old(num_refs)@,
                old(flags)@,
                final(num_refs)@,
                final(flags)@,
            ),
            None => r matches Ok(rows) && rows@.len() == refs@.len() && (forall|i: int|
                0 <= i < refs@.len() ==> (#[trigger] rows@[i]) < node_ids@.len() && node_ids@[rows@[i] as int]
                    == refs@[i]) && resolved_upto(
                node_ids@,
                refs@,
                refs@.len() as int,
                old(num_refs)@,
                old(flags)@,
                final(num_refs)@,
                final(flags)@,
            ),
        },
{
    let ghost c0 = num_refs@;
    let ghost f0 = flags@;
    let last = refs.len() - 1;
    let mut rows: Vec<u64> = Vec::new();
    let mut i: usize = 0;
    proof {
        assert forall|k: int| 0 <= k < node_ids@.len() implies (#[trigger] num_refs@[k]) == count_after(
            c0[k],
            refs_to(refs@, 0, node_ids@[k]),
        ) && flags@[k] == f0[k] | ref_flags(
            second_reference(c0[k], refs_to(refs@, 0, node_ids@[k])),
            end_reference(refs@, 0, node_ids@[k]),
        ) by {
            let a = f0[k];
            assert(a | 0u8 == a) by (bit_vector);
            assert(ref_flags(false, false) == 0u8) by {
                assert(0u8 | 0u8 == 0u8) by (bit_vector);
            }
            assert((c0[k] + 0nat) % 0x1_0000_0000 == c0[k]);
        }
    }
    while i < refs.len()
        invariant
            strictly_ascending(node_ids@),
            last + 1 == refs@.len(),
            i <= refs@.len(),
            rows@.len() == i,
            forall|l: int| 0 <= l < i ==> node_ids@.contains(#[trigger] refs@[l]),
            forall|l: int| 0 <= l < i ==> (#[trigger] rows@[l]) < node_ids@.len() && node_ids@[rows@[l] as int] == refs@[l],
            resolved_upto(node_ids@, refs@, i as int, c0, f0, num_refs@, flags@),
            c0.len() == node_ids@.len(),
            f0.len() == node_ids@.len(),
            c0 == old(num_refs)@,
            f0 == old(flags)@,
        decreases refs.len() - i,
    {
        let id = refs[i];
        let p = match node_position(node_ids, id) {
            Some(p) => p,
            None => {
                proof {
                    assert(!node_ids@.contains(refs@[i as int]));
                    assert(exists|j: int| 0 <= j < refs@.len() && !node_ids@.contains(#[trigger] refs@[j]));
                    assert(!node_ids@.contains(refs@[i as int]) && forall|l: int| 0 <= l < i ==> node_ids@.contains(#[trigger] refs@[l]));
                    assert(exists|j: int| 0 <= j < refs@.len() && !node_ids@.contains(refs@[j]) && forall|l: int| 0 <= l < j ==> node_ids@.contains(#[trigger] refs@[l])) by {
                        let w = i as int;
                        assert(0 <= w < refs@.len() && !node_ids@.contains(refs@[w]) && forall|l: int| 0 <= l < w ==> node_ids@.contains(#[trigger] refs@[l]));
                    }
                    let j = first_missing(node_ids@, refs@)->0;
                    assert(0 <= j < refs@.len() && !node_ids@.contains(refs@[j]) && forall|l: int| 0 <= l < j ==> node_ids@.contains(#[trigger] refs@[l]));
                    if j < i {
                        assert(node_ids@.contains(refs@[j]));
                    } else if j > i {
                        assert(node_ids@.contains(refs@[i as int]));
                    }
                    assert(j == i);
                    assert(first_missing(node_ids@, refs@) == Some(i as int));
                }
                return Err(id);
            },
        };
        let ghost cs = num_refs@;
        let ghost fs = flags@;
        let prev = num_refs[p];
        let next = if prev == u32::MAX { 0 } else { prev + 1 };
        num_refs.set(p, next);
        let second = prev == 1;
        let end = i == 0 || i == last;
        let f = (flags[p] | (if second { NodeFlags::INTERSECTION } else { 0u8 })) | (if end {
            NodeFlags::ENDPOINT
        } else {
            0u8
        });
        flags.set(p, f);
        rows.push(p as u64);
        proof {
            let n = i as int;
            assert forall|k: int| 0 <= k < node_ids@.len() implies refs_to(refs@, n + 1, node_ids@[k]) == refs_to(
                refs@,
                n,
                node_ids@[k],
            ) + if k == p { 1nat } else { 0nat } by {
                if k != p {
                    if k < p {
                        assert(node_ids@[k] < node_ids@[p as int]);
                    } else {
                        assert(node_ids@[p as int] < node_ids@[k]);
                    }
                }
            }
            assert forall|k: int| 0 <= k < node_ids@.len() implies (#[trigger] num_refs@[k]) == count_after(
                c0[k],
                refs_to(refs@, n + 1, node_ids@[k]),
            ) && flags@[k] == f0[k] | ref_flags(
                second_reference(c0[k], refs_to(refs@, n + 1, node_ids@[k])),
                end_reference(refs@, n + 1, node_ids@[k]),
            ) by {
                let t = refs_to(refs@, n, node_ids@[k]);
                if k == p {
                    assert(cs[k] == count_after(c0[k], t));
                    assert(fs[k] == f0[k] | ref_flags(second_reference(c0[k], t), end_reference(refs@, n, node_ids@[k])));
                    assert(prev == cs[k]);
                    assert(num_refs@[k] == next);
                    assert(flags@[k] == f);
                    assert(next == count_after(c0[k], t + 1)) by {
                        assert((c0[k] + t) % 0x1_0000_0000 < 0x1_0000_0000);
                        if prev == u32::MAX {
                            assert((c0[k] + t + 1) % 0x1_0000_0000 == 0) by (nonlinear_arith)
                                requires
                                    (c0[k] + t) % 0x1_0000_0000 == 0xffff_ffffint,
                                    c0[k] + t >= 0;
                        } else {
                            assert((c0[k] + t + 1) % 0x1_0000_0000 == (c0[k] + t) % 0x1_0000_0000 + 1) by (nonlinear_arith)
                                requires
                                    (c0[k] + t) % 0x1_0000_0000 < 0xffff_ffffint,
                                    c0[k] + t >= 0;
                        }
                    }
                    assert(second_reference(c0[k], t + 1) == (second_reference(c0[k], t) || second)) by {
                        if second {
                            assert(finds_one(c0[k], t));
                        }
                        if second_reference(c0[k], t + 1) && !second_reference(c0[k], t) {
                            let m = choose|m: nat| m < t + 1 && #[trigger] finds_one(c0[k], m);
                            assert(m == t);
                        }
                    }
                    assert(end_reference(refs@, n + 1, node_ids@[k]) == (end_reference(refs@, n, node_ids@[k]) || end)) by {
                        if end {
                            assert(refs@[n] == node_ids@[k]);
                        }
                        if end_reference(refs@, n + 1, node_ids@[k]) && !end_reference(refs@, n, node_ids@[k]) {
                            let j = choose|j: int| 0 <= j < n + 1 && refs@[j] == node_ids@[k] && (j == 0 || j == refs@.len() - 1);
                            assert(j == n);
                        }
                    }
                    lemma_flags_step(
                        f0[k],
                        second_reference(c0[k], t),
                        end_reference(refs@, n, node_ids@[k]),
                        second,
                        end,
                    );
                } else {
                    assert(num_refs@[k] == cs[k]);
                    assert(flags@[k] == fs[k]);
                    assert(end_reference(refs@, n + 1, node_ids@[k]) == end_reference(refs@, n, node_ids@[k])) by {
                        if end_reference(refs@, n + 1, node_ids@[k]) {
                            let j = choose|j: int| 0 <= j < n + 1 && refs@[j] == node_ids@[k] && (j == 0 || j == refs@.len() - 1);
                            if j == n {
                                assert(refs@[n] == node_ids@[p as int]);
                                if k < p {
                                    assert(node_ids@[k] < node_ids@[p as int]);
                                } else {
                                    assert(node_ids@[p as int] < node_ids@[k]);
                                }
                            }
                        }
                    }
                }
            }
            assert(node_ids@.contains(refs@[n])) by {
                assert(node_ids@[p as int] == refs@[n]);
            }
        }
        i = i + 1;
    }
    proof {
        if exists|j: int| 0 <= j < refs@.len() && !node_ids@.contains(#[trigger] refs@[j]) {
            let j = choose|j: int| 0 <= j < refs@.len() && !node_ids@.contains(#[trigger] refs@[j]);
            assert(node_ids@.contains(refs@[j]));
        }
    }
    Ok(rows)
}

} // verus!
