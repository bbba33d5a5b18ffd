//! Route requests: the choice of search algorithm and the shape of turn-by-turn maneuvers.

use vstd::prelude::*;
use vstd::string::StringExecFns;

use crate::algorithm::a_star::a_star;
use crate::algorithm::bidir_a_star::bidir_a_star;
use crate::algorithm::bidir_dijkstra::bidir_dijkstra;
use crate::algorithm::dikstra::dikstra;
use crate::algorithm::guided::{admissible, estimates_bounded};
use crate::algorithm::walk::{
    bounded, is_shortest, lemma_walk_empty, reachable, reverse_consistent, walk_cost, walk_nodes,
    walk_to,
};
use crate::algorithm::{Graph, Neighbour};
use crate::service::error::Error;

verus! {

/// Search algorithm used to compute the route.
#[derive(Copy, Clone, Debug, PartialEq, Eq, Structural)]
pub enum Algorithm {
    /// Dijkstra's algorithm (unidirectional).
    Dijkstra,
    /// Bidirectional Dijkstra.
    BidirDijkstra,
    /// A* (unidirectional).
    AStar,
    /// Bidirectional A*.
    BidirAStar,
}

impl Default for Algorithm {
    fn default() -> (r: Self)
        ensures
            r == Algorithm::BidirAStar,
    {
        Algorithm::BidirAStar
    }
}

/// What a route search owes: no route exactly when `goal` cannot be reached,
/// and otherwise the cheapest cost with the nodes of a walk of that cost.
pub open spec fn route_result<G: Graph>(g: &G, start: usize, goal: usize, r: Option<(Vec<usize>, usize)>) -> bool {
    match r {
        None => !reachable(g, true, start, goal),
        Some((p, c)) => is_shortest(g, true, start, goal, c as nat) && exists|w: Seq<Neighbour>|
            #[trigger] walk_to(g, true, start, w, goal) && walk_cost(w) == c && walk_nodes(start, w) == p@,
    }
}

/// What every algorithm owes whatever the heuristic: a returned route is a
/// walk from `start` to `goal` whose cost is at most the returned cost.
pub open spec fn route_sound<G: Graph>(g: &G, start: usize, goal: usize, r: Option<(Vec<usize>, usize)>) -> bool {
    r matches Some((p, c)) ==> exists|w: Seq<Neighbour>|
        #[trigger] walk_to(g, true, start, w, goal) && walk_cost(w) <= c && walk_nodes(start, w) == p@
}

/// The graph sizes under which every algorithm can run: all nodes and
/// estimates stay within machine integers, and inbound edges mirror outbound ones.
pub open spec fn runnable<G: Graph>(g: &G, start: usize, goal: usize) -> bool {
    &&& exists|n: nat, mc: nat, mh: nat|
        bounded(g, n, mc) && start < n && goal < n && estimates_bounded(g, true, goal, n, mh)
            && estimates_bounded(g, false, start, n, mh) && n * mc + mh <= usize::MAX
    &&& reverse_consistent(g)
}

impl Algorithm {
    /// Runs the chosen search from `start` to `goal`, asking for the path.
    ///
    /// The Dijkstra variants always find the cheapest route; the A* variants
    /// do so whenever the graph's heuristic is admissible for `goal`.
    pub fn run<G: Graph>(self, graph: G, start: usize, goal: usize) -> (r: Option<(Vec<usize>, usize)>)
        requires
            runnable(&graph, start, goal),
        ensures
            route_sound(&graph, start, goal, r),
            (self == Algorithm::Dijkstra || self == Algorithm::BidirDijkstra || admissible(&graph, goal))
                ==> route_result(&graph, start, goal, r),
    {
        let ghost g = graph;
        let r = match self {
            Algorithm::Dijkstra => dikstra(graph, start, goal),
            Algorithm::BidirDijkstra => bidir_dijkstra(graph, start, goal, true),
            Algorithm::AStar => a_star(graph, start, goal, true),
            Algorithm::BidirAStar => bidir_a_star(graph, start, goal, true),
        };
        proof {
            lemma_walk_empty(&g, true, start);
            if r is Some && start == goal && !(self == Algorithm::Dijkstra) {
                assert(walk_nodes(start, Seq::<Neighbour>::empty()) =~= seq![start]);
                assert(walk_to(&g, true, start, Seq::<Neighbour>::empty(), goal));
            }
        }
        r
    }
}

/// Every two results that a route search owes for the same request agree:
/// both find no route, or both find one, at the same cost. So all four
/// algorithms give the same answer, the A* ones under an admissible heuristic.
pub proof fn lemma_route_results_agree<G: Graph>(
    g: &G,
    start: usize,
    goal: usize,
    r1: Option<(Vec<usize>, usize)>,
    r2: Option<(Vec<usize>, usize)>,
)
    requires
        route_result(g, start, goal, r1),
        route_result(g, start, goal, r2),
    ensures
        r1 is None <==> r2 is None,
        r1 matches Some((p1, c1)) ==> r2 matches Some((p2, c2)) && c1 == c2,
{
    if let Some((p1, c1)) = r1 {
        let w1 = choose|w: Seq<Neighbour>|
            #[trigger] walk_to(g, true, start, w, goal) && walk_cost(w) == c1 && walk_nodes(start, w) == p1@;
        assert(reachable(g, true, start, goal));
        if let Some((p2, c2)) = r2 {
            let w2 = choose|w: Seq<Neighbour>|
                #[trigger] walk_to(g, true, start, w, goal) && walk_cost(w) == c2 && walk_nodes(start, w) == p2@;
            assert(c1 <= walk_cost(w2));
            assert(c2 <= walk_cost(w1));
        }
    } else if let Some((p2, c2)) = r2 {
        let w2 = choose|w: Seq<Neighbour>|
            #[trigger] walk_to(g, true, start, w, goal) && walk_cost(w) == c2 && walk_nodes(start, w) == p2@;
        assert(reachable(g, true, start, goal));
    }
}

/// Fails unless a route visits at least two locations.
pub fn check_route_locations(n: usize) -> (r: Result<(), Error>)
    ensures
        r is Ok <==> n >= 2,
        n < 2 ==> (r matches Err(Error::InvalidRequest(m)) && m@ == "at least two locations are required"@),
{
    if n < 2 {
        return Err(Error::InvalidRequest(String::from_str("at least two locations are required")));
    }
    Ok(())
}

/// The travel time of a trip: the sum of its legs' times.
pub open spec fn total_duration(legs: Seq<(usize, u32)>) -> nat
    decreases legs.len(),
{
    if legs.len() == 0 {
        0
    } else {
        total_duration(legs.drop_last()) + legs.last().0 as nat
    }
}

/// The length of a trip: its legs' lengths added up, stopping at `u32::MAX`.
pub open spec fn total_length(legs: Seq<(usize, u32)>) -> u32
    decreases legs.len(),
{
    if legs.len() == 0 {
        0
    } else {
        let l = total_length(legs.drop_last()) + legs.last().1;
        if l > u32::MAX {
            u32::MAX
        } else {
            l as u32
        }
    }
}

/// The totals of a trip from its legs, each given by its travel time in
/// milliseconds and its length in metres: the times add up, the lengths add up
/// and saturate.
pub fn trip_totals(legs: &Vec<(usize, u32)>) -> (r: (u64, u32))
    requires
        total_duration(legs@) <= u64::MAX,
    ensures
        r.0 == total_duration(legs@),
        r.1 == total_length(legs@),
{
    let mut duration: u64 = 0;
    let mut length: u32 = 0;
    let mut i: usize = 0;
    while i < legs.len()
        invariant
            i <= legs@.len(),
            total_duration(legs@) <= u64::MAX,
            duration == total_duration(legs@.subrange(0, i as int)),
            length == total_length(legs@.subrange(0, i as int)),
        decreases legs.len() - i,
    {
        proof {
            assert(legs@.subrange(0, i + 1).drop_last() =~= legs@.subrange(0, i as int));
            lemma_total_duration_prefix(legs@, i + 1);
        }
        let (cost, len) = legs[i];
        duration = duration + cost as u64;
        length = length.saturating_add(len);
        i = i + 1;
    }
    proof {
        assert(legs@.subrange(0, i as int) =~= legs@);
    }
    (duration, length)
}

/// The legs of a route from the results of searching each of them in turn:
/// `None` as soon as one leg has no result, since a route with an unroutable
/// leg is answered without legs; otherwise each leg's path and cost, in order.
pub fn route_legs(results: Vec<Option<(Vec<usize>, usize)>>) -> (r: Option<Vec<(Vec<usize>, usize)>>)
    ensures
        r is None <==> exists|i: int| 0 <= i < results@.len() && (#[trigger] results@[i]) is None,
        r matches Some(legs) ==> legs@.len() == results@.len() && forall|i: int|
            0 <= i < results@.len() ==> results@[i] == Some(#[trigger] legs@[i]),
{
    let ghost all = results@;
    let mut legs: Vec<(Vec<usize>, usize)> = Vec::new();
    for item in it: results
        invariant
            it.seq() == all,
            legs@.len() == it.index(),
            forall|k: int| 0 <= k < it.index() ==> all[k] == Some(#[trigger] legs@[k]),
    {
        match item {
            Some(leg) => {
                legs.push(leg);
            },
            None => {
                proof {
                    assert(all[it.index() as int] is None);
                }
                return None;
            },
        }
    }
    proof {
        assert forall|i: int| 0 <= i < all.len() implies !(#[trigger] all[i] is None) by {
            assert(all[i] == Some(legs@[i]));
        }
    }
    Some(legs)
}

/// A prefix of the legs takes no longer than all of them.
proof fn lemma_total_duration_prefix(legs: Seq<(usize, u32)>, n: int)
    requires
        0 <= n <= legs.len(),
    ensures
        total_duration(legs.subrange(0, n)) <= total_duration(legs),
    decreases legs.len(),
{
    if n < legs.len() {
        assert(legs.drop_last().subrange(0, n) =~= legs.subrange(0, n));
        lemma_total_duration_prefix(legs.drop_last(), n);
    } else {
        assert(legs.subrange(0, n) =~= legs);
    }
}

/// The kind of a turn-by-turn instruction.
#[derive(Copy, Clone, Debug, PartialEq, Eq, Structural)]
pub enum ManeuverType {
    Start,
    Destination,
    Continue,
    Turn,
    SlightTurn,
    SharpTurn,
    UTurn,
    Ramp,
    Exit,
    Stay,
    Merge,
    RoundaboutEnter,
    RoundaboutExit(u8),
    FerryEnter,
    FerryExit,
}

/// The side toward which a maneuver turns.
#[derive(Copy, Clone, Debug, PartialEq, Eq, Structural)]
pub enum ManeuverDirection {
    Straight,
    Left,
    Right,
}

/// A turn-by-turn instruction covering a stretch of the route's path.
pub struct Maneuver {
    pub maneuver_type: ManeuverType,
    pub maneuver_direction: Option<ManeuverDirection>,
    pub instruction: String,
    pub street_names: Vec<String>,
    /// First and last index of the path points the maneuver covers.
    pub path_segment: [usize; 2],
}

} // verus!
