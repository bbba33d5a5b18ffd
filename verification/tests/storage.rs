use router::storage::edge::Edge;
use router::storage::node::{link_edge_node_to_nodes, Node, NodeId, NO_EDGE};
use router::storage::btree::BTreeBase;
use router::storage::access::AccessFlags;
use router::storage::attrib::{HighwayClass, SurfaceQuality, WayFlags, HIGHWAY_CLASS_COUNT};
use router::storage::dim_restriction::DimRestriction;
use router::storage::edge_node::{EdgeNode, EdgeNodeChain, NO_TURN};
use router::storage::header::{name_hash, HeaderWithIndex, IndexInfo, SimpleHeader, SupportsIndex, TableDataHeader, VerifiicationError};
use router::storage::idindex::IdEntry;
use router::storage::morton::encode;
use router::storage::spatial::{
    level_len,
    compute_level_lens, level_offsets, read_level_starts, SpatialHeaderError, SpatialIndexBuilder, MAGIC, VERSION,
};
use router::storage::table_index::{find, index_layout, SparseIndex};
use router::storage::turn_edge::TurnEdge;
use router::storage::attrib::TurnFlags;
use router::storage::way::{Way, WayId};
use router::types::country::CountryId;
use router::types::vehicle::VehicleType;

#[test]
fn access_flags_block_vehicles() {
    let f = AccessFlags(AccessFlags::NO_HGV | AccessFlags::NO_FOOT);
    assert!(f.blocks(VehicleType::Hgv));
    assert!(f.blocks(VehicleType::Foot));
    assert!(!f.blocks(VehicleType::Car));
    assert!(f.allows(VehicleType::Bicycle));
    assert!(AccessFlags(AccessFlags::NO_MOTOR).blocks(VehicleType::Motorcycle));
    assert!(!AccessFlags::empty().blocks(VehicleType::Car));
}

#[test]
fn highway_names_roundtrip() {
    assert_eq!(HighwayClass::from_name("motorway_link"), Some(HighwayClass::MotorwayLink));
    assert_eq!(HighwayClass::from_name("Motorway"), None);
    assert_eq!(HighwayClass::LivingStreet.name(), "living_street");
    assert_eq!(HighwayClass::LivingStreet.variant_name(), "LivingStreet");
    assert_eq!(HighwayClass::Ferry.index(), HIGHWAY_CLASS_COUNT - 1);
    assert_eq!(SurfaceQuality::Excellent.variant_name(), "Excellent");
}

#[test]
fn dimension_restrictions() {
    let d = DimRestriction { max_height_dm: 40, max_width_dm: 0, max_weight_250kg: 30 };
    assert!(d.blocks_vehicle(41, 0, 0));
    assert!(!d.blocks_vehicle(40, 99, 30));
    assert!(d.blocks_vehicle(0, 0, 31));
    assert!(!d.blocks_vehicle(0, 0, 0));
    assert!(DimRestriction::none().is_none());
    assert!(!d.is_none());
}

#[test]
fn edge_node_geometry() {
    let fwd = EdgeNode::new(3, 120, CountryId(57), 10, 4);
    assert_eq!(fwd.geometry_to_idx(), 14);
    assert_eq!(fwd.geometry_count(), 5);
    assert_eq!(fwd.geometry_range(), 10..=14);
    assert!(!fwd.is_backward());
    assert_eq!(fwd.first_outbound_turn_idx(), NO_TURN as usize);
    let bwd = EdgeNode::new(3, 120, CountryId(57), 14, -4);
    assert_eq!(bwd.geometry_to_idx(), 10);
    assert_eq!(bwd.geometry_range(), 10..=14);
    assert!(bwd.is_backward());
    assert_eq!(bwd.way_idx(), 3);
    let chain = EdgeNodeChain::new();
    assert_eq!(chain.next_outgoing(), EdgeNodeChain::NONE as usize);
}

#[test]
fn turn_edges_start_unlinked() {
    let t = TurnEdge::new(1, 2, -90, AccessFlags(0), TurnFlags(TurnFlags::TRAFFIC_SIGNALS));
    assert_eq!(t.from_edge_node_idx(), 1);
    assert_eq!(t.to_edge_node_idx(), 2);
    assert_eq!(t.next_outbound_idx(), NO_TURN as usize);
    assert_eq!(t.next_inbound_idx(), NO_TURN as usize);
}

#[test]
fn way_directions() {
    let mut w = Way::new(WayId(5));
    assert!(w.is_forward() && w.is_backward());
    w.flags = WayFlags(WayFlags::DIRECTION_FORWARD);
    assert!(w.is_forward() && !w.is_backward());
}

#[test]
fn verification_error_descriptions() {
    assert_eq!(VerifiicationError::HashMismatch.description(), "Header hash does not match expected value");
    assert_eq!(VerifiicationError::DataSizeMismatch.description(), "Data size does not match expected value");
}

#[test]
fn headers_verify_their_own_type() {
    let h = SimpleHeader::<Way>::for_item("router::storage::way::Way");
    assert_eq!(h.version, 6);
    assert_eq!(h.data_size, std::mem::size_of::<Way>() as u64);
    assert_eq!(h.hash, name_hash("router::storage::way::Way"));
    assert_eq!(&h.name[..4], b"rout");
    assert_eq!(h.name[127], 0);
    assert!(h.verify("router::storage::way::Way").is_ok());
    assert_eq!(h.verify("router::storage::way::WayId"), Err(VerifiicationError::HashMismatch));
    let mut h2 = SimpleHeader::<Way>::for_item("x");
    h2.version = 5;
    assert_eq!(h2.verify("x"), Err(VerifiicationError::VersionMismatch));
    h2.version = 6;
    h2.header_size += 1;
    assert_eq!(h2.verify("x"), Err(VerifiicationError::HeaderSizeMismatch));
}

#[test]
fn header_index_info() {
    let mut h = HeaderWithIndex::<IdEntry>::for_item("id");
    assert_eq!(h.index_info(), None);
    let info = IndexInfo { num_data_entries: 100, entries_per_block: 10, num_index_entries: 10 };
    h.set_index_info(info);
    assert_eq!(h.index_info(), Some(info));
    assert!(h.verify("id").is_ok());
}

fn ids(keys: &[u64]) -> Vec<IdEntry> {
    keys.iter().enumerate().map(|(i, &k)| IdEntry { key: k, idx: i as u64 }).collect()
}

#[test]
fn index_layout_sizes() {
    assert_eq!(index_layout(0), None);
    assert_eq!(index_layout(1), None);
    assert_eq!(index_layout(2), Some((1, 2)));
    assert_eq!(index_layout(524288), Some((1, 524288)));
    assert_eq!(index_layout(524289), Some((2, 262145)));
    assert_eq!(index_layout(1048576), Some((2, 524288)));
    assert_eq!(index_layout(2000000), Some((4, 500000)));
}

#[test]
fn find_without_index() {
    let items = ids(&[2, 3, 5, 8, 13, 21]);
    assert_eq!(find(&items, None, 8), Some(3));
    assert_eq!(find(&items, None, 2), Some(0));
    assert_eq!(find(&items, None, 21), Some(5));
    assert_eq!(find(&items, None, 4), None);
    assert_eq!(find(&items, None, 100), None);
    assert_eq!(find(&ids(&[]), None, 1), None);
}

#[test]
fn find_with_index() {
    let keys: Vec<u64> = (0..600000u64).map(|i| i * 3 + 1).collect();
    let items = ids(&keys);
    let index = SparseIndex::build(&items).unwrap();
    assert_eq!(index.entries_per_block, 2);
    assert_eq!(index.keys.len(), 300000);
    assert_eq!(index.keys[1], 7);
    for &(key, expected) in &[(1u64, Some(0usize)), (4, Some(1)), (7, Some(2)), (1799998, Some(599999)), (5, None), (0, None), (2000000, None)] {
        assert_eq!(find(&items, Some(&index), key), expected);
        assert_eq!(find(&items, None, key), expected);
    }
    let small = ids(&[1, 2, 3]);
    let per_item = SparseIndex::build(&small).unwrap();
    assert_eq!((per_item.entries_per_block, per_item.keys.clone()), (1, vec![1, 2, 3]));
    assert_eq!(find(&small, Some(&per_item), 3), Some(2));
    assert!(SparseIndex::build(&ids(&[1])).is_none());
}

#[test]
fn morton_interleaves_bits() {
    assert_eq!(encode(0, 0), 0);
    assert_eq!(encode(1, 0), 1);
    assert_eq!(encode(0, 1), 2);
    assert_eq!(encode(3, 0), 5);
    assert_eq!(encode(0xffff_ffff, 0), 0x5555_5555_5555_5555);
    assert_eq!(encode(0, 0xffff_ffff), 0xaaaa_aaaa_aaaa_aaaa);
    assert_eq!(encode(0xffff_ffff, 0xffff_ffff), u64::MAX);
}

#[test]
fn spatial_level_lengths() {
    assert_eq!(compute_level_lens(0, 16), vec![0]);
    assert_eq!(compute_level_lens(16, 16), vec![16]);
    assert_eq!(compute_level_lens(17, 16), vec![17, 2]);
    assert_eq!(compute_level_lens(1000, 16), vec![1000, 63, 4]);
    assert_eq!(compute_level_lens(10, 2), vec![10, 5, 3, 2]);
}

#[test]
fn spatial_level_offsets() {
    let (offsets, size) = level_offsets(&vec![1000, 63, 4]).unwrap();
    assert_eq!(&offsets[..4], &[512, 512 + 24 * 1000, 512 + 24 * 1063, 0]);
    assert_eq!(size, 512 + 24 * 1067);
    assert!(level_offsets(&vec![1; 17]).is_none());
    assert!(level_offsets(&vec![usize::MAX]).is_none());
}

#[test]
fn spatial_header_checks() {
    let mut offsets = [0u64; 16];
    offsets[0] = 512;
    offsets[1] = 512 + 24 * 10;
    let starts = read_level_starts(MAGIC, VERSION, 2, &offsets).unwrap();
    assert_eq!(&starts[..3], &[0, 10, 0]);
    assert_eq!(read_level_starts(MAGIC + 1, VERSION, 2, &offsets), Err(SpatialHeaderError::BadHeader));
    assert_eq!(read_level_starts(MAGIC, VERSION + 1, 2, &offsets), Err(SpatialHeaderError::BadHeader));
    assert_eq!(read_level_starts(MAGIC, VERSION, 17, &offsets), Err(SpatialHeaderError::InvalidNumLevels));
    assert_eq!(read_level_starts(MAGIC, VERSION, 3, &offsets), Err(SpatialHeaderError::BadLevelOffset));
    offsets[1] = 513;
    assert_eq!(read_level_starts(MAGIC, VERSION, 2, &offsets), Err(SpatialHeaderError::BadLevelOffset));
}

#[test]
fn spatial_builder_options() {
    let b = SpatialIndexBuilder::new();
    assert_eq!((b.node_size(), b.chunk_size()), (16, 16 * 1024 * 1024));
    let c = SpatialIndexBuilder::with_options(4, 10);
    assert_eq!((c.node_size(), c.chunk_size()), (4, 10));
    assert_eq!(SpatialIndexBuilder::default(), b);
}

#[test]
fn btree_leaf_capacity() {
    assert_eq!(BTreeBase::<u64, u64>::max_items_per_leaf(), 255);
    assert_eq!(BTreeBase::<u32, u16>::max_items_per_leaf(), 681);
    assert_eq!(BTreeBase::<u8, ()>::max_items_per_leaf(), 4088);
}

#[test]
fn edges_resolve_their_way() {
    let mut e = Edge::new(11, 12, 77, AccessFlags(AccessFlags::NO_HGV), 50);
    assert_eq!((e.from_node_idx(), e.to_node_idx(), e.way_idx()), (11, 12, 77));
    assert_eq!((e.next_edge, e.next_edge_reverse), (NO_EDGE, NO_EDGE));
    assert_eq!((e.dist_m, e.country_id), (0, CountryId::unknown()));
    e.resolve(3, 420, CountryId::from_iso2("DE"));
    assert_eq!((e.way_idx(), e.dist_m, e.country_id), (3, 420, CountryId::from_iso2("DE")));
    assert_eq!((e.from_node_idx, e.max_speed, e.flags), (11, 50, AccessFlags(AccessFlags::NO_HGV)));
}

#[test]
fn spatial_level_entry_counts() {
    let mut starts = [0usize; 16];
    starts[1] = 100;
    starts[2] = 107;
    assert_eq!(level_len(&starts, 3, 108, 0), 100);
    assert_eq!(level_len(&starts, 3, 108, 1), 7);
    assert_eq!(level_len(&starts, 3, 108, 2), 1);
}

#[test]
fn nodes_list_their_edge_nodes() {
    let mut nodes = vec![Node::new(NodeId(5)), Node::new(NodeId(6))];
    assert!(!nodes[0].is_connected());
    let mut first = EdgeNodeChain::new();
    link_edge_node_to_nodes(&mut nodes, 0, 1, 0, &mut first);
    let mut second = EdgeNodeChain::new();
    link_edge_node_to_nodes(&mut nodes, 0, 1, 1, &mut second);
    assert_eq!(nodes[0].first_outgoing_edge_node_idx(), 1);
    assert_eq!(nodes[1].first_incoming_edge_node_idx(), 1);
    assert_eq!(nodes[0].first_incoming_edge_node_idx, NO_EDGE);
    assert_eq!((second.next_outgoing(), second.next_incoming()), (0, 0));
    assert_eq!((first.next_out, first.next_in), (NO_EDGE, NO_EDGE));
    assert!(nodes[0].is_connected() && nodes[1].is_connected());
    assert_eq!(nodes[0].node_flags().bits(), 0);
}
