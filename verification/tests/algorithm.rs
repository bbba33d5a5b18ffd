use std::collections::{HashMap, HashSet};

use router::algorithm::a_star::a_star;
use router::algorithm::adjacency::AdjacencyGraph;
use router::algorithm::bidir_a_star::bidir_a_star;
use router::algorithm::bidir_dijkstra::bidir_dijkstra;
use router::algorithm::dikstra::{dijkstra_ssmt, dijkstra_with_stop_condition, dijkstra_within_budget, dikstra};
use router::algorithm::{reconstruct_path, reconstruct_path_bidir, Graph, Neighbour};
use router::service::route::Algorithm;

/// 0 -> 2 -> 1 -> 3 is the only cheapest way from 0 to 3 (cost 4);
/// node 4 is reached from nowhere.
fn sample() -> AdjacencyGraph {
    let edges = vec![(0, 1, 4), (0, 2, 1), (2, 1, 2), (1, 3, 1), (2, 3, 5)];
    AdjacencyGraph::from_edges(5, &edges)
}

#[test]
fn adjacency_lists_both_directions() {
    let g = sample();
    assert_eq!(
        g.outbound(0),
        vec![Neighbour { edge_node_idx: 1, cost: 4 }, Neighbour { edge_node_idx: 2, cost: 1 }]
    );
    assert_eq!(
        g.inbound(1),
        vec![Neighbour { edge_node_idx: 0, cost: 4 }, Neighbour { edge_node_idx: 2, cost: 2 }]
    );
    assert_eq!(g.outbound(4), vec![]);
    assert_eq!(g.outbound(9), vec![]);
    assert_eq!(g.heuristic(0, 3), Some(0));
}

#[test]
fn dijkstra_finds_cheapest_path() {
    let g = sample();
    assert_eq!(dikstra(&g, 0, 3), Some((vec![0, 2, 1, 3], 4)));
}

#[test]
fn dijkstra_unreachable_goal() {
    let g = sample();
    assert_eq!(dikstra(&g, 0, 4), None);
    assert_eq!(dikstra(&g, 3, 0), None);
}

#[test]
fn a_star_finds_cheapest_path() {
    let g = sample();
    assert_eq!(a_star(&g, 0, 3, true), Some((vec![0, 2, 1, 3], 4)));
    assert_eq!(a_star(&g, 0, 4, true), None);
    assert_eq!(a_star(&g, 2, 2, true), Some((vec![2], 0)));
}

#[test]
fn a_star_without_path_reports_cost_only() {
    let g = sample();
    assert_eq!(a_star(&g, 0, 3, false), Some((vec![], 4)));
}

#[test]
fn bidir_dijkstra_finds_cheapest_path() {
    let g = sample();
    assert_eq!(bidir_dijkstra(&g, 0, 3, true), Some((vec![0, 2, 1, 3], 4)));
    assert_eq!(bidir_dijkstra(&g, 0, 4, true), None);
    assert_eq!(bidir_dijkstra(&g, 1, 1, true), Some((vec![1], 0)));
}

#[test]
fn bidir_dijkstra_without_path() {
    let g = sample();
    assert_eq!(bidir_dijkstra(&g, 0, 3, false), Some((vec![], 4)));
    assert_eq!(bidir_dijkstra(&g, 0, 4, false), None);
    assert_eq!(bidir_a_star(&g, 0, 3, false), Some((vec![], 4)));
    assert_eq!(bidir_a_star(&g, 0, 4, false), None);
}

#[test]
fn bidir_a_star_finds_cheapest_path() {
    let g = sample();
    assert_eq!(bidir_a_star(&g, 0, 3, true), Some((vec![0, 2, 1, 3], 4)));
    assert_eq!(bidir_a_star(&g, 0, 4, true), None);
}

#[test]
fn all_algorithms_agree() {
    let g = sample();
    for (start, goal) in [(0, 3), (0, 1), (2, 3), (3, 0), (0, 4), (1, 1)] {
        let expected = dikstra(&g, start, goal).map(|(_, c)| c);
        for alg in [Algorithm::Dijkstra, Algorithm::BidirDijkstra, Algorithm::AStar, Algorithm::BidirAStar] {
            assert_eq!(alg.run(&g, start, goal).map(|(_, c)| c), expected);
        }
    }
}

#[test]
fn default_algorithm_is_bidirectional_a_star() {
    assert_eq!(Algorithm::default(), Algorithm::BidirAStar);
    assert_eq!(Algorithm::BidirAStar.run(&sample(), 0, 3), Some((vec![0, 2, 1, 3], 4)));
}

#[test]
fn stop_condition_ends_search() {
    let g = sample();
    let (dist, pred) = dijkstra_with_stop_condition(&g, 0, |p| p == 2);
    assert_eq!(dist.get(&0), Some(&0));
    assert_eq!(dist.get(&2), Some(&1));
    assert_eq!(pred.get(&2), Some(&0));
    // node 1 was only reached at a tentative cost before the stop: left out
    assert_eq!(dist.get(&1), None);
    assert_eq!(pred.get(&1), None);
    assert_eq!(dist.get(&3), None);
}

#[test]
fn budget_limits_search() {
    let g = sample();
    let dist = dijkstra_within_budget(&g, 0, 3);
    let mut reached: Vec<(usize, usize)> = dist.into_iter().collect();
    reached.sort();
    assert_eq!(reached, vec![(0, 0), (1, 3), (2, 1)]);
}

#[test]
fn ssmt_settles_all_targets() {
    let g = sample();
    let targets: HashSet<usize> = [1, 3].into_iter().collect();
    let (dist, pred) = dijkstra_ssmt(&g, 0, &targets);
    assert_eq!(dist.get(&1), Some(&3));
    assert_eq!(dist.get(&3), Some(&4));
    assert_eq!(reconstruct_path(&pred, 0, 3), vec![0, 2, 1, 3]);
    let (d, p) = dijkstra_ssmt(&g, 0, &HashSet::new());
    assert!(d.is_empty() && p.is_empty());
}

#[test]
fn reconstruct_follows_predecessors() {
    let pred: HashMap<usize, usize> = [(3, 1), (1, 2), (2, 0)].into_iter().collect();
    assert_eq!(reconstruct_path(&pred, 0, 3), vec![0, 2, 1, 3]);
    assert_eq!(reconstruct_path(&pred, 0, 0), vec![0]);
    // the chain stops at a node without predecessor
    assert_eq!(reconstruct_path(&pred, 7, 3), vec![0, 2, 1, 3]);
}

#[test]
fn reconstruct_bidir_joins_both_halves() {
    let fwd: HashMap<usize, usize> = [(2, 0)].into_iter().collect();
    let bwd: HashMap<usize, usize> = [(2, 1), (1, 3)].into_iter().collect();
    assert_eq!(reconstruct_path_bidir(&fwd, &bwd, 0, 2, 3), vec![0, 2, 1, 3]);
}
