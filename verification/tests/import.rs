use router::import_pbf::importer::Importer;
use std::path::PathBuf;
use std::collections::HashMap;

use router::import_pbf::importer::{
    resolve_way_refs, renumber_entries, reorder_ways, way_id_entries, check_features, parse_restriction, way_entries, way_speeds, Error, MemberType, RelationMember,
};
use router::import_pbf::tags::{parse_max_speed, parse_u16, NodeTags, WayTags};
use router::storage::access::AccessFlags;
use router::storage::attrib::{HighwayClass, SurfaceQuality, WayFlags};
use router::storage::dim_restriction::DimRestriction;
use router::storage::way::{Way, WayId};

fn tags<'s>(pairs: &[(&str, &'s str)]) -> WayTags<'s> {
    let mut t = WayTags::default();
    for (k, v) in pairs {
        t.set_tag(k, v);
    }
    t
}

fn entries(t: &WayTags, fwd: u8, bwd: u8) -> Vec<Way> {
    way_entries(WayId(7), t, DimRestriction::none(), fwd, bwd, 10, 3)
}

fn no_names() -> HashMap<String, u8> {
    HashMap::new()
}

#[test]
fn tags_are_read() {
    let t = tags(&[("highway", "primary"), ("maxspeed", "50"), ("tunnel", "yes"), ("unknown_key", "x")]);
    assert_eq!(t.highway_class(), HighwayClass::Primary);
    assert_eq!(t.raw_max_speed, Some("50"));
    assert!(t.tunnel);
    let mut t2 = WayTags::default();
    assert!(t2.set_tag("highway", "residential"));
    assert!(!t2.set_tag("name", "Main Street"));
}

#[test]
fn way_flags_from_tags() {
    let t = tags(&[("highway", "primary"), ("oneway", "yes"), ("toll", "yes"), ("bridge", "yes")]);
    assert_eq!(t.derive_way_flags().bits(), WayFlags::ONEWAY | WayFlags::TOLL | WayFlags::BRIDGE);
    let r = tags(&[("highway", "primary"), ("junction", "roundabout")]);
    assert_eq!(r.derive_way_flags().bits(), WayFlags::ONEWAY);
    assert!(tags(&[("oneway", "-1")]).is_oneway_reverse());
}

#[test]
fn excluded_ways() {
    assert!(tags(&[]).is_excluded());
    assert!(tags(&[("highway", "residential"), ("access", "private")]).is_excluded());
    assert!(tags(&[("highway", "residential"), ("abandoned", "yes")]).is_excluded());
    assert!(!tags(&[("highway", "residential")]).is_excluded());
    assert!(!tags(&[("route", "ferry")]).is_excluded());
}

#[test]
fn directional_access() {
    let foot = tags(&[("highway", "footway")]);
    assert_eq!(foot.derive_directional_access(HighwayClass::Footway, true).bits(), AccessFlags::NO_MOTOR | AccessFlags::NO_HGV);
    let mw = tags(&[("highway", "motorway")]);
    assert_eq!(mw.derive_directional_access(HighwayClass::Motorway, false).bits(), AccessFlags::NO_BICYCLE | AccessFlags::NO_FOOT);
    let fwd_no = tags(&[("highway", "residential"), ("access:forward", "no")]);
    assert_eq!(fwd_no.derive_directional_access(HighwayClass::Residential, true).bits(), 0x1f);
    assert_eq!(fwd_no.derive_directional_access(HighwayClass::Residential, false).bits(), 0);
    let bikes_ok = tags(&[("highway", "residential"), ("vehicle", "no"), ("bicycle", "yes")]);
    assert_eq!(
        bikes_ok.derive_directional_access(HighwayClass::Residential, true).bits(),
        AccessFlags::NO_MOTOR | AccessFlags::NO_HGV
    );
}

#[test]
fn surface_quality_prefers_smoothness() {
    assert_eq!(tags(&[("surface", "asphalt")]).surface_quality(), SurfaceQuality::Excellent);
    assert_eq!(tags(&[("surface", "asphalt"), ("smoothness", "bad")]).surface_quality(), SurfaceQuality::Bad);
    assert_eq!(tags(&[("tracktype", "grade2")]).surface_quality(), SurfaceQuality::Intermediate);
    assert_eq!(tags(&[]).surface_quality(), SurfaceQuality::Unknown);
}

#[test]
fn node_flags() {
    let mut n = NodeTags::default();
    n.set_tag("barrier", "gate");
    n.set_tag("highway", "traffic_signals");
    n.set_tag("toll", "yes");
    assert_eq!(n.derive_node_flags().bits(), 0x01 | 0x02 | 0x10 | 0x20);
    assert!(n.has_routing_data());
    assert!(!NodeTags::default().has_routing_data());
}

#[test]
fn parse_numbers() {
    assert_eq!(parse_u16("42"), Some(42));
    assert_eq!(parse_u16("+7"), Some(7));
    assert_eq!(parse_u16("65535"), Some(65535));
    assert_eq!(parse_u16("65536"), None);
    assert_eq!(parse_u16(""), None);
    assert_eq!(parse_u16("4x"), None);
}

#[test]
fn max_speed_values() {
    let none = no_names();
    assert_eq!(parse_max_speed(" 50 ", &none), Some(50));
    assert_eq!(parse_max_speed("300", &none), Some(255));
    assert_eq!(parse_max_speed("30 mph", &none), Some(48));
    assert_eq!(parse_max_speed("20mph", &none), Some(32));
    assert_eq!(parse_max_speed("50 mph", &none), Some(80));
    assert_eq!(parse_max_speed("70 mph", &none), Some(112));
    assert_eq!(parse_max_speed("65535 mph", &none), Some(255));
    assert_eq!(parse_max_speed("walk", &none), Some(7));
    assert_eq!(parse_max_speed("DE:urban", &none), None);
    assert_eq!(parse_max_speed("signals", &none), None);
    let mut named = HashMap::new();
    named.insert("DE:urban".to_string(), 50u8);
    named.insert("walk".to_string(), 5u8);
    assert_eq!(parse_max_speed("DE:urban", &named), Some(50));
    assert_eq!(parse_max_speed("walk", &named), Some(5));
}

#[test]
fn speeds_per_direction() {
    let none = no_names();
    assert_eq!(way_speeds(&tags(&[("maxspeed", "40")]), &none), (40, 40));
    assert_eq!(way_speeds(&tags(&[("maxspeed", "40"), ("maxspeed:forward", "60")]), &none), (60, 40));
    assert_eq!(way_speeds(&tags(&[("maxspeed:backward", "signals")]), &none), (0, 0));
    assert_eq!(way_speeds(&tags(&[]), &none), (0, 0));
}

#[test]
fn two_way_road_gives_one_entry() {
    let t = tags(&[("highway", "residential")]);
    let w = entries(&t, 30, 30);
    assert_eq!(w.len(), 1);
    assert_eq!(w[0].id, WayId(7));
    assert_eq!(w[0].flags.bits(), 0);
    assert_eq!(w[0].highway, HighwayClass::Residential);
    assert_eq!(w[0].access.bits(), 0);
    assert_eq!(w[0].max_speed, 30);
    assert_eq!(w[0].node_refs_idx, 10);
    assert_eq!(w[0].node_refs_count, 3);
}

#[test]
fn oneway_road_gives_one_directed_entry() {
    let t = tags(&[("highway", "primary"), ("oneway", "yes")]);
    let w = entries(&t, 50, 70);
    assert_eq!(w.len(), 1);
    assert_eq!(w[0].flags.bits(), WayFlags::ONEWAY | WayFlags::DIRECTION_FORWARD);
    assert_eq!(w[0].max_speed, 50);
    let r = tags(&[("highway", "primary"), ("oneway", "-1")]);
    let w = entries(&r, 50, 70);
    assert_eq!(w.len(), 1);
    assert_eq!(w[0].flags.bits(), WayFlags::ONEWAY | WayFlags::DIRECTION_BACKWARD);
    assert_eq!(w[0].max_speed, 70);
}

#[test]
fn differing_directions_give_a_pair() {
    let t = tags(&[("highway", "residential")]);
    let w = entries(&t, 30, 50);
    assert_eq!(w.len(), 2);
    assert_eq!(w[0].flags.bits(), WayFlags::HAS_PAIR | WayFlags::DIRECTION_FORWARD);
    assert_eq!(w[1].flags.bits(), WayFlags::HAS_PAIR | WayFlags::DIRECTION_BACKWARD);
    assert_eq!((w[0].max_speed, w[1].max_speed), (30, 50));
    assert_eq!((w[0].id, w[1].id), (WayId(7), WayId(7)));
    // this pair records the references' position in the count field
    assert_eq!((w[0].node_refs_count, w[1].node_refs_count), (10, 10));
    let f = tags(&[("highway", "residential"), ("access:forward", "no")]);
    let w = entries(&f, 30, 30);
    assert_eq!(w.len(), 2);
    assert_eq!((w[0].access.bits(), w[1].access.bits()), (0x1f, 0));
}

#[test]
fn roundabout_with_bicycle_contraflow_gives_a_pair() {
    let t = tags(&[("highway", "residential"), ("junction", "roundabout"), ("oneway:bicycle", "no")]);
    assert!(t.is_bicycle_contraflow());
    let w = entries(&t, 30, 30);
    assert_eq!(w.len(), 2);
    assert_eq!(w[0].flags.bits(), WayFlags::ONEWAY | WayFlags::HAS_PAIR | WayFlags::DIRECTION_FORWARD);
    assert_eq!(w[1].flags.bits(), WayFlags::ONEWAY | WayFlags::HAS_PAIR | WayFlags::DIRECTION_BACKWARD);
    assert_eq!(w[0].access.bits(), 0);
    assert_eq!(w[1].access.bits(), AccessFlags::NO_MOTOR);
}

#[test]
fn excluded_way_gives_no_entries() {
    let t = tags(&[("highway", "residential"), ("access", "no")]);
    assert!(entries(&t, 30, 30).is_empty());
}

fn member(t: MemberType, role: &str, id: i64) -> RelationMember<'_> {
    RelationMember { member_type: t, role, id }
}

#[test]
fn restriction_relations() {
    let members = vec![
        member(MemberType::Way, "from", 1),
        member(MemberType::Node, "via", 2),
        member(MemberType::Way, "to", 3),
    ];
    let r = parse_restriction(&vec![("type", "restriction"), ("restriction", "no_left_turn")], &members).unwrap();
    assert_eq!((r.from_way_id, r.via_node_id, r.to_way_id, r.only, r.vehicle_mask.bits()), (1, 2, 3, false, 0));
    let r = parse_restriction(&vec![("restriction:hgv", "only_straight_on")], &members).unwrap();
    assert!(r.only);
    assert!(parse_restriction(&vec![("restriction", "give_way")], &members).is_none());
    assert!(parse_restriction(&vec![("type", "restriction")], &members).is_none());
    let via_way = vec![
        member(MemberType::Way, "from", 1),
        member(MemberType::Way, "via", 2),
        member(MemberType::Way, "to", 3),
    ];
    assert!(parse_restriction(&vec![("restriction", "no_u_turn")], &via_way).is_none());
    let twice = vec![
        member(MemberType::Way, "from", 1),
        member(MemberType::Way, "from", 5),
        member(MemberType::Node, "via", 2),
        member(MemberType::Way, "to", 3),
    ];
    assert_eq!(parse_restriction(&vec![("restriction", "no_u_turn")], &twice).unwrap().from_way_id, 5);
}

fn strings(v: &[&str]) -> Vec<String> {
    v.iter().map(|s| s.to_string()).collect()
}

#[test]
fn file_features() {
    let ok = check_features(&strings(&["OsmSchema-V0.6", "DenseNodes"]), &strings(&["Sort.Type_then_ID"]));
    assert!(ok.is_ok());
    match check_features(&strings(&["OsmSchema-V0.6", "HistoricalInformation"]), &strings(&["Sort.Type_then_ID"])) {
        Err(Error::UnsupportedFeature(f)) => assert_eq!(f, "HistoricalInformation"),
        _ => panic!("unsupported feature not reported"),
    }
    match check_features(&strings(&["DenseNodes"]), &strings(&[])) {
        Err(Error::FeatureRequired(f)) => assert_eq!(f, "Sort.Type_then_ID"),
        _ => panic!("missing feature not reported"),
    }
}

#[test]
fn importer_settings() {
    let mut overrides = HashMap::new();
    overrides.insert("DE:urban".to_string(), 45u8);
    let imp = Importer::from_buf_read(std::io::empty())
        .with_target_dir(PathBuf::from("/tmp/out"))
        .with_country_boundaries(PathBuf::from("countries.geojson"))
        .with_maxspeed(overrides.clone());
    let (dir, _read, boundaries, maxspeed) = imp.into_parts();
    assert_eq!(dir, PathBuf::from("/tmp/out"));
    assert_eq!(boundaries, Some(PathBuf::from("countries.geojson")));
    assert_eq!(maxspeed, overrides);
    let (dir, _, b, m) = Importer::from_buf_read(std::io::empty()).into_parts();
    assert_eq!(dir, PathBuf::from("storage"));
    assert!(b.is_none() && m.is_empty());
}

#[test]
fn way_index_follows_reordered_ways() {
    let ways: Vec<Way> = [30i64, 10, 20].iter().map(|&id| Way::new(WayId(id))).collect();
    let mut entries = way_id_entries(&ways);
    assert_eq!(entries.iter().map(|e| (e.key, e.idx)).collect::<Vec<_>>(), vec![(30, 0), (10, 1), (20, 2)]);
    let order = vec![1usize, 2, 0];
    let reordered = reorder_ways(&ways, &order);
    assert_eq!(reordered.iter().map(|w| w.id.0).collect::<Vec<_>>(), vec![10, 20, 30]);
    renumber_entries(&mut entries, &order);
    assert_eq!(entries.iter().map(|e| (e.key, e.idx)).collect::<Vec<_>>(), vec![(30, 2), (10, 0), (20, 1)]);
    for e in &entries {
        assert_eq!(reordered[e.idx as usize].id.0 as u64, e.key);
    }
}

#[test]
fn way_refs_count_and_mark_nodes() {
    let ids = vec![10i64, 20, 30, 40];
    let mut counts = vec![0u32, 1, 0, 0];
    let mut flags = vec![0u8, 0, 0x01, 0];
    // 10 -> 20 -> 30 -> 20: 20 reaches its second and third reference
    let rows = resolve_way_refs(&ids, &vec![10, 20, 30, 20], &mut counts, &mut flags).unwrap();
    assert_eq!(rows, vec![0, 1, 2, 1]);
    assert_eq!(counts, vec![1, 3, 1, 0]);
    // INTERSECTION = 0x40, ENDPOINT = 0x80
    assert_eq!(flags, vec![0x80, 0xc0, 0x01, 0]);
}

#[test]
fn way_refs_stop_at_missing_node() {
    let ids = vec![10i64, 20, 30];
    let mut counts = vec![0u32; 3];
    let mut flags = vec![0u8; 3];
    assert_eq!(resolve_way_refs(&ids, &vec![10, 25, 30], &mut counts, &mut flags), Err(25));
    // the reference before the missing one was counted and marked
    assert_eq!(counts, vec![1, 0, 0]);
    assert_eq!(flags, vec![0x80, 0, 0]);
}

#[test]
fn differing_directions_record_the_low_bits_of_the_position() {
    let t = tags(&[("highway", "residential")]);
    let w = way_entries(WayId(7), &t, DimRestriction::none(), 30, 50, 70000, 3);
    assert_eq!(w.len(), 2);
    assert_eq!((w[0].node_refs_idx, w[1].node_refs_idx), (70000, 70000));
    assert_eq!((w[0].node_refs_count, w[1].node_refs_count), (4464, 4464));
    let o = tags(&[("highway", "residential"), ("oneway", "yes")]);
    assert_eq!(way_entries(WayId(7), &o, DimRestriction::none(), 30, 50, 70000, 3)[0].node_refs_count, 3);
}
