use std::collections::HashMap;

use router::algorithm::Neighbour;
use router::service::matrix::destination_cost;
use router::service::cost::DistanceCost;
use router::service::graph::RoadGraph;
use router::service::profile::VehicleType;
use router::service::virtual_graph::{SnapPoint, VirtualGraph, VIRTUAL_GOAL, VIRTUAL_START};
use router::storage::access::AccessFlags;
use router::storage::attrib::TurnFlags;
use router::storage::edge_node::{EdgeNode, NO_TURN};
use router::storage::turn_edge::{link_turn_edge, TurnEdge};
use router::storage::way::{Way, WayId};
use router::types::country::CountryId;

fn n(edge_node_idx: usize, cost: usize) -> Neighbour {
    Neighbour { edge_node_idx, cost }
}

/// Three edge nodes of 50, 100 and 200 m with turns 0→1, 0→2 and 1→2.
fn tables() -> (Vec<EdgeNode>, Vec<TurnEdge>, Vec<Way>) {
    let de = CountryId::from_iso2("DE");
    let mut ens = vec![
        EdgeNode::new(0, 50, de, 0, 1),
        EdgeNode::new(0, 100, de, 1, 1),
        EdgeNode::new(0, 200, de, 2, 1),
    ];
    let mut tes = Vec::new();
    for (ptr, (from, to)) in [(0usize, 1usize), (0, 2), (1, 2)].into_iter().enumerate() {
        let mut te = TurnEdge::new(from as u64, to as u64, 0, AccessFlags(0), TurnFlags(0));
        link_turn_edge(&mut ens, from, to, ptr as u64, &mut te);
        tes.push(te);
    }
    (ens, tes, vec![Way::new(WayId(7))])
}

fn car() -> DistanceCost {
    DistanceCost { vehicle_type: VehicleType::Car }
}

#[test]
fn linking_prepends_turns() {
    let (ens, tes, _) = tables();
    assert_eq!(ens[0].first_outbound_turn, 1);
    assert_eq!(tes[1].next_outbound, 0);
    assert_eq!(tes[0].next_outbound, NO_TURN);
    assert_eq!(ens[2].first_inbound_turn, 2);
    assert_eq!(tes[2].next_inbound, 1);
    assert_eq!(tes[1].next_inbound, NO_TURN);
    assert_eq!(ens[1].first_inbound_turn, 0);
    assert_eq!(ens[1].first_outbound_turn, 2);
    assert_eq!(ens[0].first_inbound_turn, NO_TURN);
}

#[test]
fn road_graph_walks_turn_lists() {
    let (ens, tes, ways) = tables();
    let g = RoadGraph { edge_nodes: &ens, turn_edges: &tes, ways: &ways, cost_model: car() };
    assert_eq!(g.outbound(0), vec![n(2, 200), n(1, 100)]);
    assert_eq!(g.outbound(1), vec![n(2, 200)]);
    assert_eq!(g.outbound(2), vec![]);
    assert_eq!(g.outbound(99), vec![]);
    assert_eq!(g.inbound(2), vec![n(1, 100), n(0, 50)]);
    assert_eq!(g.inbound(0), vec![]);
}

#[test]
fn road_graph_skips_blocked_turns_and_ways() {
    let (ens, mut tes, mut ways) = tables();
    tes[1].restriction_mask = AccessFlags(AccessFlags::NO_CAR);
    let g = RoadGraph { edge_nodes: &ens, turn_edges: &tes, ways: &ways, cost_model: car() };
    assert_eq!(g.outbound(0), vec![n(1, 100)]);
    let foot = RoadGraph { edge_nodes: &ens, turn_edges: &tes, ways: &ways, cost_model: DistanceCost { vehicle_type: VehicleType::Foot } };
    assert_eq!(foot.outbound(0), vec![n(2, 200), n(1, 100)]);
    ways[0].access = AccessFlags(AccessFlags::NO_CAR);
    let g = RoadGraph { edge_nodes: &ens, turn_edges: &tes, ways: &ways, cost_model: car() };
    assert_eq!(g.outbound(0), vec![]);
}

#[test]
fn road_graph_stops_on_a_looping_list() {
    let (ens, mut tes, ways) = tables();
    tes[0].next_outbound = 1;
    let g = RoadGraph { edge_nodes: &ens, turn_edges: &tes, ways: &ways, cost_model: car() };
    // 1 → 0 → 1 → ...: one step per turn
    assert_eq!(g.outbound(0), vec![n(2, 200), n(1, 100), n(2, 200)]);
}

fn snap(edge_node_idx: usize, from_start: usize, to_end: usize) -> SnapPoint {
    SnapPoint { edge_node_idx, distance_from_start_m: from_start, distance_to_end_m: to_end, at_first_position: true }
}

#[test]
fn virtual_endpoints_join_the_graph() {
    let (ens, tes, ways) = tables();
    let g = RoadGraph { edge_nodes: &ens, turn_edges: &tes, ways: &ways, cost_model: car() };
    let (vg, s, t) = VirtualGraph::new(g, &[snap(0, 20, 30)], &[snap(2, 40, 160)]).unwrap();
    assert_eq!((s, t), (VIRTUAL_START, VIRTUAL_GOAL));
    assert_eq!(vg.outbound(VIRTUAL_START), vec![n(1, 130), n(2, 230)]);
    assert_eq!(vg.outbound(VIRTUAL_GOAL), vec![]);
    assert_eq!(vg.outbound(1), vec![n(2, 200), n(VIRTUAL_GOAL, 140)]);
    assert_eq!(vg.outbound(0), vec![n(2, 200), n(1, 100), n(VIRTUAL_GOAL, 90)]);
    assert_eq!(vg.inbound(VIRTUAL_GOAL), vec![n(0, 90), n(1, 140)]);
    assert_eq!(vg.inbound(VIRTUAL_START), vec![]);
    assert_eq!(vg.inbound(1), vec![n(0, 50), n(VIRTUAL_START, 130)]);
}

#[test]
fn exact_snaps_need_no_virtual_endpoint() {
    let (ens, tes, ways) = tables();
    let g = RoadGraph { edge_nodes: &ens, turn_edges: &tes, ways: &ways, cost_model: car() };
    let (vg, s, t) = VirtualGraph::new(g, &[snap(0, 50, 0)], &[snap(2, 0, 200)]).unwrap();
    assert_eq!((s, t), (0, 2));
    assert_eq!(vg.outbound(VIRTUAL_START), vec![]);
    assert_eq!(vg.outbound(1), vec![n(2, 200)]);
}

#[test]
fn shared_edge_gives_a_direct_edge() {
    let (ens, tes, ways) = tables();
    let g = RoadGraph { edge_nodes: &ens, turn_edges: &tes, ways: &ways, cost_model: car() };
    let (vg, s, t) = VirtualGraph::new(g, &[snap(1, 10, 90)], &[snap(1, 60, 40)]).unwrap();
    assert_eq!((s, t), (VIRTUAL_START, VIRTUAL_GOAL));
    assert_eq!(vg.outbound(VIRTUAL_START), vec![n(2, 290), n(VIRTUAL_GOAL, 50)]);
    assert_eq!(vg.inbound(VIRTUAL_GOAL), vec![n(0, 110), n(VIRTUAL_START, 50)]);
    // the goal behind the start: no direct edge
    let g = RoadGraph { edge_nodes: &ens, turn_edges: &tes, ways: &ways, cost_model: car() };
    let (vg, _, _) = VirtualGraph::new(g, &[snap(1, 60, 40)], &[snap(1, 10, 90)]).unwrap();
    assert_eq!(vg.outbound(VIRTUAL_START), vec![n(2, 240)]);
}

#[test]
fn start_only_graph() {
    let (ens, tes, ways) = tables();
    let g = RoadGraph { edge_nodes: &ens, turn_edges: &tes, ways: &ways, cost_model: car() };
    let (vg, s) = VirtualGraph::new_from_start(g, &[snap(0, 20, 30)]).unwrap();
    assert_eq!(s, VIRTUAL_START);
    assert_eq!(vg.outbound(VIRTUAL_START), vec![n(1, 130), n(2, 230)]);
    assert_eq!(vg.outbound(1), vec![n(2, 200)]);
    let g = RoadGraph { edge_nodes: &ens, turn_edges: &tes, ways: &ways, cost_model: car() };
    let (_, s) = VirtualGraph::new_from_start(g, &[]).unwrap();
    assert_eq!(s, VIRTUAL_START);
}

#[test]
fn overflowing_costs_are_refused() {
    let (ens, tes, ways) = tables();
    let g = RoadGraph { edge_nodes: &ens, turn_edges: &tes, ways: &ways, cost_model: car() };
    assert!(VirtualGraph::new_from_start(g, &[snap(0, 0, usize::MAX)]).is_none());
}

#[test]
fn destination_cost_takes_cheapest_snap() {
    let (ens, tes, ways) = tables();
    let g = RoadGraph { edge_nodes: &ens, turn_edges: &tes, ways: &ways, cost_model: car() };
    let mut settled: HashMap<usize, usize> = HashMap::new();
    settled.insert(1, 500);
    settled.insert(2, 100);
    // arrival = settled cost + distance from the edge node's start
    let snaps = [snap(1, 30, 70), snap(2, 150, 50), snap(0, 0, 50)];
    assert_eq!(destination_cost(&snaps, &settled, &g), Some((250, 2)));
    let snaps = [snap(2, 400, 0), snap(1, 0, 100)];
    assert_eq!(destination_cost(&snaps, &settled, &g), Some((500, 2)));
    assert_eq!(destination_cost(&[snap(0, 10, 40)], &settled, &g), None);
    assert_eq!(destination_cost(&[], &settled, &g), None);
}

#[test]
fn snap_edge_length() {
    assert_eq!(snap(1, 30, 70).edge_distance_m(), 100);
}
