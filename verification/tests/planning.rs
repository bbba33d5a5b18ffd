use std::collections::HashMap;

use router::service::isochrone::reached_within;
use router::service::virtual_graph::VIRTUAL_START;
use router::service::error::Error;
use router::service::matrix::{matrix_cells, matrix_durations, MatrixCell, batch_by_origin, best_destination, check_matrix_sizes, matrix_pairs};
use router::service::route::{check_route_locations, route_legs, trip_totals};

fn invalid_request(r: Result<(), Error>) -> String {
    match r {
        Err(Error::InvalidRequest(m)) => m,
        _ => panic!("expected an invalid request"),
    }
}

#[test]
fn matrix_sizes_must_not_be_empty() {
    assert!(check_matrix_sizes(2, 3).is_ok());
    assert_eq!(invalid_request(check_matrix_sizes(0, 3)), "from and to must not be empty");
    assert_eq!(invalid_request(check_matrix_sizes(2, 0)), "from and to must not be empty");
}

#[test]
fn matrix_pairs_default_to_all_pairs() {
    let pairs = matrix_pairs(2, 3, Vec::new()).unwrap();
    assert_eq!(pairs, vec![(0, 0), (0, 1), (0, 2), (1, 0), (1, 1), (1, 2)]);
    assert_eq!(matrix_pairs(1, 1, Vec::new()).unwrap(), vec![(0, 0)]);
}

#[test]
fn matrix_pairs_keep_requested_order() {
    let pairs = matrix_pairs(2, 3, vec![(1, 2), (0, 0), (1, 2)]).unwrap();
    assert_eq!(pairs, vec![(1, 2), (0, 0), (1, 2)]);
}

#[test]
fn matrix_pairs_report_first_out_of_bounds() {
    match matrix_pairs(2, 3, vec![(0, 1), (2, 0), (0, 7)]) {
        Err(Error::InvalidRequest(m)) => assert_eq!(m, "pair (2, 0) out of bounds (from=2, to=3)"),
        _ => panic!("expected an invalid request"),
    }
    match matrix_pairs(2, 3, vec![(1, 3)]) {
        Err(Error::InvalidRequest(m)) => assert_eq!(m, "pair (1, 3) out of bounds (from=2, to=3)"),
        _ => panic!("expected an invalid request"),
    }
}

#[test]
fn batches_group_pairs_by_origin() {
    let pairs = vec![(0, 1), (1, 0), (0, 0), (0, 2), (1, 1)];
    let identical = vec![false, false, true, false, true];
    let batches = batch_by_origin(&pairs, &identical);
    assert_eq!(batches.len(), 2);
    assert_eq!(batches[&0], vec![(0, 1), (3, 2)]);
    assert_eq!(batches[&1], vec![(1, 0)]);
    let none = batch_by_origin(&vec![(0, 0)], &vec![true]);
    assert!(none.is_empty());
}

#[test]
fn best_destination_takes_first_cheapest() {
    assert_eq!(best_destination(&vec![Some(7), None, Some(3), Some(3)]), Some((3, 2)));
    assert_eq!(best_destination(&vec![None, Some(5)]), Some((5, 1)));
    assert_eq!(best_destination(&vec![None, None]), None);
    assert_eq!(best_destination(&vec![Some(usize::MAX)]), None);
    assert_eq!(best_destination(&Vec::new()), None);
}

#[test]
fn routes_need_two_locations() {
    assert!(check_route_locations(2).is_ok());
    assert_eq!(invalid_request(check_route_locations(1)), "at least two locations are required");
    assert_eq!(invalid_request(check_route_locations(0)), "at least two locations are required");
}

#[test]
fn trip_totals_add_legs() {
    assert_eq!(trip_totals(&Vec::new()), (0, 0));
    assert_eq!(trip_totals(&vec![(1500, 200), (2500, 300)]), (4000, 500));
    assert_eq!(trip_totals(&vec![(1, u32::MAX - 10), (2, 20), (3, 5)]), (6, u32::MAX));
}

#[test]
fn isochrone_keeps_nodes_within_threshold() {
    let mut costs: HashMap<usize, usize> = HashMap::new();
    costs.insert(1, 10);
    costs.insert(2, 50);
    costs.insert(3, 30);
    costs.insert(VIRTUAL_START, 0);
    let mut reached = reached_within(&costs, 30);
    reached.sort();
    assert_eq!(reached, vec![1, 3]);
    assert!(reached_within(&costs, 5).is_empty());
    assert!(reached_within(&HashMap::new(), 100).is_empty());
}

#[test]
fn matrix_cells_keep_request_order() {
    // pairs 0 and 3 coincide; pairs 2 and 1 were routed, in that order; pair 4 was unreachable
    let identical = vec![true, false, false, true, false];
    let cells = matrix_cells(&identical, &vec![2, 1]);
    assert_eq!(
        cells,
        vec![(0, MatrixCell::Same), (1, MatrixCell::Routed(1)), (2, MatrixCell::Routed(0)), (3, MatrixCell::Same)]
    );
    assert!(matrix_cells(&vec![false, false], &vec![]).is_empty());
}

#[test]
fn route_legs_need_every_leg() {
    let legs = route_legs(vec![Some((vec![1, 2], 5)), Some((vec![2, 3, 4], 7))]);
    assert_eq!(legs, Some(vec![(vec![1, 2], 5), (vec![2, 3, 4], 7)]));
    assert_eq!(route_legs(vec![Some((vec![1, 2], 5)), None, Some((vec![3], 0))]), None);
    assert_eq!(route_legs(Vec::new()), Some(Vec::new()));
}

#[test]
fn matrix_durations_give_zero_for_coinciding_pairs() {
    let pairs = vec![(0, 0), (0, 1), (1, 0)];
    let cells = matrix_cells(&vec![true, false, false], &vec![1]);
    let entries = matrix_durations(&cells, &pairs, &vec![4200]);
    assert_eq!(entries, vec![(0, 0, 0), (0, 1, 4200)]);
}
