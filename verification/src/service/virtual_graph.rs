//! The road graph seen from snapped positions: a virtual start edge node that
//! leads into the graph from where the start location lies on an edge node,
//! and a virtual goal edge node that the graph leads into where the goal
//! location lies.

use vstd::prelude::*;

use crate::algorithm::Neighbour;
use crate::service::cost::{costs_fit, CostModel};
use crate::service::graph::RoadGraph;

verus! {

/// Fixed index of the virtual start edge node. It only has outbound edges
/// into the real graph, from the snapped start position.
pub const VIRTUAL_START: usize = usize::MAX;

/// Fixed index of the virtual goal edge node. It only has inbound edges from
/// the real graph, to the snapped goal position.
pub const VIRTUAL_GOAL: usize = usize::MAX - 1;

/// Where a location was snapped onto an edge node: the distances to the
/// edge node's start and end along it, and whether it lies at the position
/// of the first snap of its location.
#[derive(Copy, Clone, Debug, PartialEq, Eq, Structural)]
pub struct SnapPoint {
    pub edge_node_idx: usize,
    pub distance_from_start_m: usize,
    pub distance_to_end_m: usize,
    pub at_first_position: bool,
}

impl SnapPoint {
    /// The length of the snap's edge node: the distances to its start and to
    /// its end together.
    pub fn edge_distance_m(&self) -> (r: usize)
        requires
            self.distance_from_start_m + self.distance_to_end_m <= usize::MAX,
        ensures
            r == self.distance_from_start_m + self.distance_to_end_m,
    {
        self.distance_from_start_m + self.distance_to_end_m
    }
}

/// The part of its edge node that a search still has to travel from a start
/// snap (to the end), or to a goal snap (from the start).
pub open spec fn remaining_m(s: SnapPoint, goal: bool) -> usize {
    if goal {
        s.distance_from_start_m
    } else {
        s.distance_to_end_m
    }
}

/// Neighbours sorted by the edge node they lead to.
pub open spec fn sorted_by_target(s: Seq<Neighbour>) -> bool {
    forall|i: int, j: int| 0 <= i <= j < s.len() ==> (#[trigger] s[i]).edge_node_idx <= (#[trigger] s[j]).edge_node_idx
}

/// Every neighbour with `extra` added to its cost; `None` when a sum leaves
/// `usize`.
pub open spec fn add_cost(s: Seq<Neighbour>, extra: usize) -> Option<Seq<Neighbour>> {
    if forall|i: int| 0 <= i < s.len() ==> (#[trigger] s[i]).cost + extra <= usize::MAX {
        Some(s.map_values(|n: Neighbour| Neighbour { edge_node_idx: n.edge_node_idx, cost: (n.cost + extra) as usize }))
    } else {
        None
    }
}

/// The turns out of a start snap's edge node (into a goal snap's), each
/// costing as well the rest of the snap's edge node; nothing when the edge
/// node or its way is missing or blocked, and `None` when a cost leaves
/// `usize`.
pub open spec fn snap_turns<'a, C: CostModel>(g: RoadGraph<'a, C>, s: SnapPoint, goal: bool) -> Option<
    Seq<Neighbour>,
> {
    let idx = s.edge_node_idx;
    if idx >= g.edge_nodes@.len() {
        Some(Seq::empty())
    } else {
        let en = g.edge_nodes@[idx as int];
        let wi = en.way_idx as usize;
        if wi >= g.ways@.len() {
            Some(Seq::empty())
        } else {
            match g.cost_model.traversal_spec(remaining_m(s, goal), en, g.ways@[wi as int]) {
                None => Some(Seq::empty()),
                Some(rest) => add_cost(
                    if goal {
                        g.inbound_spec(idx)
                    } else {
                        g.outbound_spec(idx)
                    },
                    rest,
                ),
            }
        }
    }
}

/// The turns collected from those of the first `n` snaps that lie at the
/// first snap's position, in order; `None` when a cost leaves `usize`.
pub open spec fn collected<'a, C: CostModel>(g: RoadGraph<'a, C>, snaps: Seq<SnapPoint>, n: nat, goal: bool) -> Option<
    Seq<Neighbour>,
>
    decreases n,
{
    if n == 0 {
        Some(Seq::empty())
    } else {
        match collected(g, snaps, (n - 1) as nat, goal) {
            None => None,
            Some(prev) => if snaps[n - 1].at_first_position {
                match snap_turns(g, snaps[n - 1], goal) {
                    None => None,
                    Some(t) => Some(prev + t),
                }
            } else {
                Some(prev)
            },
        }
    }
}

/// The first of the first `n` snaps that lies exactly at the end of its edge
/// node (for a start) or at its start (for a goal).
pub open spec fn first_exact(snaps: Seq<SnapPoint>, n: nat, goal: bool) -> Option<int>
    decreases n,
{
    if n == 0 {
        None
    } else {
        match first_exact(snaps, (n - 1) as nat, goal) {
            Some(k) => Some(k),
            None => if remaining_m(snaps[n - 1], goal) == 0 {
                Some(n - 1)
            } else {
                None
            },
        }
    }
}

/// Building the endpoint overflows: a cost collected before the first exact
/// snap (or from all snaps, when none is exact) leaves `usize`.
pub open spec fn endpoint_fails<'a, C: CostModel>(g: RoadGraph<'a, C>, snaps: Seq<SnapPoint>, goal: bool) -> bool {
    snaps.len() > 0 && match first_exact(snaps, snaps.len(), goal) {
        Some(k) => collected(g, snaps, k as nat, goal) is None,
        None => collected(g, snaps, snaps.len(), goal) is None,
    }
}

/// The edge node where the search starts (ends): that of the first exact
/// snap, else the virtual one.
pub open spec fn endpoint_index(snaps: Seq<SnapPoint>, goal: bool) -> usize {
    match first_exact(snaps, snaps.len(), goal) {
        Some(k) => snaps[k].edge_node_idx,
        None => if goal {
            VIRTUAL_GOAL
        } else {
            VIRTUAL_START
        },
    }
}

/// The turns of the virtual endpoint, when there is one: those collected from
/// all snaps, when there are snaps and none is exact.
pub open spec fn endpoint_turns<'a, C: CostModel>(g: RoadGraph<'a, C>, snaps: Seq<SnapPoint>, goal: bool) -> Option<
    Seq<Neighbour>,
> {
    if snaps.len() == 0 || first_exact(snaps, snaps.len(), goal) is Some {
        None
    } else {
        collected(g, snaps, snaps.len(), goal)
    }
}

/// `slice::sort_by_key` on the edge node a neighbour leads to: afterwards the
/// vector holds the same neighbours, as a multiset, sorted by that edge node.
/// The sort is also stable; nothing here relies on it, and it is not stated.
#[verifier::external_body]
fn sort_by_target(v: &mut Vec<Neighbour>)
    ensures
        final(v)@.to_multiset() == old(v)@.to_multiset(),
        sorted_by_target(final(v)@),
{
    v.sort_by_key(|e| e.edge_node_idx);
}

/// Appends every neighbour of `list` with `extra` added to its cost; false,
/// with `out` left in any state, when a sum leaves `usize`.
fn push_with_cost(out: &mut Vec<Neighbour>, list: &Vec<Neighbour>, extra: usize) -> (ok: bool)
    ensures
        ok == add_cost(list@, extra) is Some,
        ok ==> final(out)@ == old(out)@ + add_cost(list@, extra)->0,
{
    let ghost start = out@;
    let mut i: usize = 0;
    while i < list.len()
        invariant
            i <= list@.len(),
            forall|j: int| 0 <= j < i ==> (#[trigger] list@[j]).cost + extra <= usize::MAX,
            out@ == start + list@.subrange(0, i as int).map_values(
                |n: Neighbour| Neighbour { edge_node_idx: n.edge_node_idx, cost: (n.cost + extra) as usize },
            ),
        decreases list.len() - i,
    {
        let n = list[i];
        if n.cost > usize::MAX - extra {
            return false;
        }
        out.push(Neighbour { edge_node_idx: n.edge_node_idx, cost: n.cost + extra });
        proof {
            assert(list@.subrange(0, i + 1) =~= list@.subrange(0, i as int).push(n));
            assert(out@ =~= start + list@.subrange(0, i + 1).map_values(
                |n: Neighbour| Neighbour { edge_node_idx: n.edge_node_idx, cost: (n.cost + extra) as usize },
            ));
        }
        i = i + 1;
    }
    proof {
        assert(list@.subrange(0, i as int) =~= list@);
    }
    true
}

/// Collects the turns of one snap into `out`, as `snap_turns` describes;
/// false when a cost leaves `usize`.
fn collect_turns_for_snap<'a, C: CostModel>(
    graph: &RoadGraph<'a, C>,
    snap: &SnapPoint,
    goal: bool,
    out: &mut Vec<Neighbour>,
) -> (ok: bool)
    requires
        costs_fit(graph.cost_model),
    ensures
        ok == snap_turns(*graph, *snap, goal) is Some,
        ok ==> final(out)@ == old(out)@ + snap_turns(*graph, *snap, goal)->0,
{
    let idx = snap.edge_node_idx;
    if idx >= graph.edge_nodes.len() {
        proof {
            assert(old(out)@ + Seq::<Neighbour>::empty() =~= old(out)@);
        }
        return true;
    }
    let en = &graph.edge_nodes[idx];
    let wi = en.way_idx();
    if wi >= graph.ways.len() {
        proof {
            assert(old(out)@ + Seq::<Neighbour>::empty() =~= old(out)@);
        }
        return true;
    }
    let dist = if goal {
        snap.distance_from_start_m
    } else {
        snap.distance_to_end_m
    };
    let rest = match graph.cost_model.traversal_cost(dist, en, &graph.ways[wi]) {
        Some(r) => r,
        None => {
            proof {
                assert(old(out)@ + Seq::<Neighbour>::empty() =~= old(out)@);
            }
            return true;
        },
    };
    let turns = if goal {
        graph.inbound(idx)
    } else {
        graph.outbound(idx)
    };
    push_with_cost(out, &turns, rest)
}

/// Once found, the first exact snap stays the first; one found later lies
/// after every snap already passed.
proof fn lemma_first_exact_prefix(snaps: Seq<SnapPoint>, n: nat, m: nat, goal: bool)
    requires
        n <= m,
    ensures
        first_exact(snaps, n, goal) is Some ==> first_exact(snaps, m, goal) == first_exact(snaps, n, goal),
        first_exact(snaps, n, goal) is None && first_exact(snaps, m, goal) is Some ==> n <= first_exact(
            snaps,
            m,
            goal,
        )->0 < m,
        first_exact(snaps, m, goal) matches Some(k) ==> 0 <= k < m && remaining_m(snaps[k], goal) == 0,
    decreases m,
{
    if m > n {
        lemma_first_exact_prefix(snaps, n, (m - 1) as nat, goal);
    } else if m > 0 {
        lemma_first_exact_prefix(snaps, (m - 1) as nat, (m - 1) as nat, goal);
    }
}

/// Once a cost has overflowed, collecting more snaps cannot recover.
proof fn lemma_collected_overflow_stays<'a, C: CostModel>(
    g: RoadGraph<'a, C>,
    snaps: Seq<SnapPoint>,
    n: nat,
    m: nat,
    goal: bool,
)
    requires
        n <= m,
        collected(g, snaps, n, goal) is None,
    ensures
        collected(g, snaps, m, goal) is None,
    decreases m,
{
    if m > n {
        lemma_collected_overflow_stays(g, snaps, n, (m - 1) as nat, goal);
    }
}

/// The virtual edge node of a start or of a goal.
pub open spec fn virtual_index(goal: bool) -> usize {
    if goal {
        VIRTUAL_GOAL
    } else {
        VIRTUAL_START
    }
}

/// Builds the endpoint of a search from the snaps of its location: the
/// first snap that lies exactly at the end of its edge node (at the start,
/// for a goal) is an edge node of the graph and needs no virtual one;
/// otherwise the turns collected from the snaps at the first snap's position,
/// sorted by the edge node they lead to, make up the virtual endpoint.
/// `None` when a cost leaves `usize`.
fn build_endpoint<'a, C: CostModel>(graph: &RoadGraph<'a, C>, snaps: &[SnapPoint], goal: bool) -> (r: Option<
    (Option<Vec<Neighbour>>, usize),
>)
    requires
        costs_fit(graph.cost_model),
    ensures
        r is None <==> endpoint_fails(*graph, snaps@, goal),
        r matches Some((adj, idx)) ==> {
            &&& idx == endpoint_index(snaps@, goal)
            &&& match endpoint_turns(*graph, snaps@, goal) {
                None => adj is None,
                Some(t) => adj matches Some(v) && v@.to_multiset() == t.to_multiset() && sorted_by_target(v@),
            }
            &&& (adj matches Some(v) ==> forall|k: int|
                0 <= k < v@.len() ==> (#[trigger] v@[k]).edge_node_idx < graph.edge_nodes@.len())
        },
{
    if snaps.len() == 0 {
        return Some((None, if goal { VIRTUAL_GOAL } else { VIRTUAL_START }));
    }
    let mut adjacent: Vec<Neighbour> = Vec::new();
    let mut i: usize = 0;
    while i < snaps.len()
        invariant
            i <= snaps@.len(),
            costs_fit(graph.cost_model),
            first_exact(snaps@, i as nat, goal) is None,
            collected(*graph, snaps@, i as nat, goal) == Some(adjacent@),
        decreases snaps.len() - i,
    {
        let s = snaps[i];
        let rest = if goal {
            s.distance_from_start_m
        } else {
            s.distance_to_end_m
        };
        if rest == 0 {
            proof {
                lemma_first_exact_prefix(snaps@, (i + 1) as nat, snaps@.len(), goal);
            }
            return Some((None, s.edge_node_idx));
        }
        if s.at_first_position {
            if !collect_turns_for_snap(graph, &s, goal, &mut adjacent) {
                proof {
                    lemma_collected_overflow_stays(*graph, snaps@, (i + 1) as nat, snaps@.len(), goal);
                    lemma_first_exact_prefix(snaps@, (i + 1) as nat, snaps@.len(), goal);
                    if first_exact(snaps@, snaps@.len(), goal) is Some {
                        let k = first_exact(snaps@, snaps@.len(), goal)->0;
                        lemma_collected_overflow_stays(*graph, snaps@, (i + 1) as nat, k as nat, goal);
                    }
                }
                return None;
            }
        }
        i = i + 1;
    }
    let ghost unsorted = adjacent@;
    sort_by_target(&mut adjacent);
    proof {
        lemma_collected_targets(*graph, snaps@, snaps@.len(), goal);
        assert(collected(*graph, snaps@, snaps@.len(), goal) == Some(unsorted));
        assert forall|k: int| 0 <= k < adjacent@.len() implies (#[trigger] adjacent@[k]).edge_node_idx
            < graph.edge_nodes@.len() by {
            broadcast use vstd::seq_lib::group_to_multiset_ensures;

            let x = adjacent@[k];
            assert(adjacent@.contains(x));
            assert(adjacent@.to_multiset().count(x) > 0);
            assert(unsorted.to_multiset().count(x) > 0);
            assert(unsorted.contains(x));
            let j = choose|j: int| 0 <= j < unsorted.len() && unsorted[j] == x;
            let t = collected(*graph, snaps@, snaps@.len(), goal)->0;
            assert(t == unsorted);
            assert(t[j].edge_node_idx < graph.edge_nodes@.len());
        }
    }
    Some((Some(adjacent), if goal { VIRTUAL_GOAL } else { VIRTUAL_START }))
}

/// Every neighbour of a turn list leads to an edge node of the graph.
proof fn lemma_turn_list_targets<'a, C: CostModel>(g: RoadGraph<'a, C>, cur: usize, steps: nat, reverse: bool)
    ensures
        forall|i: int|
            0 <= i < g.turn_list(cur, steps, reverse).len() ==> (#[trigger] g.turn_list(cur, steps, reverse)[i]).edge_node_idx
                < g.edge_nodes@.len(),
    decreases steps,
{
    if steps > 0 && cur < g.turn_edges@.len() {
        let te = g.turn_edges@[cur as int];
        let next = crate::service::graph::next_turn(te, reverse);
        lemma_turn_list_targets(g, next, (steps - 1) as nat, reverse);
        let rest = g.turn_list(next, (steps - 1) as nat, reverse);
        if g.turn_neighbour(te, reverse) is Some {
            let n = g.turn_neighbour(te, reverse)->0;
            assert(g.turn_list(cur, steps, reverse) == seq![n] + rest);
            assert forall|i: int| 0 <= i < (seq![n] + rest).len() implies (#[trigger] (seq![n] + rest)[i]).edge_node_idx
                < g.edge_nodes@.len() by {
                if i > 0 {
                    assert((seq![n] + rest)[i] == rest[i - 1]);
                }
            }
        }
    }
}

/// Every collected turn leads to an edge node of the graph.
proof fn lemma_collected_targets<'a, C: CostModel>(g: RoadGraph<'a, C>, snaps: Seq<SnapPoint>, n: nat, goal: bool)
    ensures
        collected(g, snaps, n, goal) matches Some(t) ==> forall|i: int|
            0 <= i < t.len() ==> (#[trigger] t[i]).edge_node_idx < g.edge_nodes@.len(),
    decreases n,
{
    if n > 0 {
        lemma_collected_targets(g, snaps, (n - 1) as nat, goal);
        let s = snaps[n - 1];
        if collected(g, snaps, (n - 1) as nat, goal) is Some && s.at_first_position && snap_turns(g, s, goal) is Some {
            let prev = collected(g, snaps, (n - 1) as nat, goal)->0;
            let t = snap_turns(g, s, goal)->0;
            let idx = s.edge_node_idx;
            if idx < g.edge_nodes@.len() {
                let first = g.first_turn(idx, goal);
                lemma_turn_list_targets(g, first, g.turn_edges@.len(), goal);
            }
            assert forall|i: int| 0 <= i < (prev + t).len() implies (#[trigger] (prev + t)[i]).edge_node_idx
                < g.edge_nodes@.len() by {
                if i >= prev.len() {
                    assert((prev + t)[i] == t[i - prev.len()]);
                }
            }
        }
    }
}

/// A start snap and a goal snap on the same edge node, both at their
/// location's first position, the start no further along it than the goal.
pub open spec fn shares_edge(s: SnapPoint, g: SnapPoint) -> bool {
    s.at_first_position && g.at_first_position && s.edge_node_idx == g.edge_node_idx && s.distance_from_start_m
        <= g.distance_from_start_m
}

/// The first of the first `n` goal snaps that shares an edge node with `s`.
pub open spec fn goal_match(s: SnapPoint, goals: Seq<SnapPoint>, n: nat) -> Option<int>
    decreases n,
{
    if n == 0 {
        None
    } else {
        match goal_match(s, goals, (n - 1) as nat) {
            Some(j) => Some(j),
            None => if shares_edge(s, goals[n - 1]) {
                Some(n - 1)
            } else {
                None
            },
        }
    }
}

/// The first of the first `n` start snaps that shares an edge node with a
/// goal snap, with the first such goal snap.
pub open spec fn shared_pair(starts: Seq<SnapPoint>, goals: Seq<SnapPoint>, n: nat) -> Option<(int, int)>
    decreases n,
{
    if n == 0 {
        None
    } else {
        match shared_pair(starts, goals, (n - 1) as nat) {
            Some(p) => Some(p),
            None => match goal_match(starts[n - 1], goals, goals.len()) {
                Some(j) => Some(((n - 1) as int, j)),
                None => None,
            },
        }
    }
}

/// A matching goal snap lies among the first `n`.
proof fn lemma_goal_match_range(s: SnapPoint, goals: Seq<SnapPoint>, n: nat)
    ensures
        goal_match(s, goals, n) matches Some(j) ==> 0 <= j < n,
    decreases n,
{
    if n > 0 {
        lemma_goal_match_range(s, goals, (n - 1) as nat);
    }
}

/// A shared pair lies among the first `n` start snaps and the goal snaps.
proof fn lemma_shared_pair_range(starts: Seq<SnapPoint>, goals: Seq<SnapPoint>, n: nat)
    ensures
        shared_pair(starts, goals, n) matches Some((i, j)) ==> 0 <= i < n && 0 <= j < goals.len() && shares_edge(
            starts[i],
            goals[j],
        ),
    decreases n,
{
    if n > 0 {
        lemma_shared_pair_range(starts, goals, (n - 1) as nat);
        lemma_goal_match_range(starts[n - 1], goals, goals.len());
        lemma_goal_match_found(starts[n - 1], goals, goals.len());
    }
}

/// A goal match shares the edge node.
proof fn lemma_goal_match_found(s: SnapPoint, goals: Seq<SnapPoint>, n: nat)
    ensures
        goal_match(s, goals, n) matches Some(j) ==> shares_edge(s, goals[j]),
    decreases n,
{
    if n > 0 {
        lemma_goal_match_found(s, goals, (n - 1) as nat);
    }
}

/// The first start snap and goal snap that lie on the same edge node, both at
/// their location's first position, with the start not beyond the goal: a
/// search between them can run along that edge node alone.
fn find_shared_snap(starts: &[SnapPoint], goals: &[SnapPoint]) -> (r: Option<(usize, usize)>)
    ensures
        match shared_pair(starts@, goals@, starts@.len()) {
            None => r is None,
            Some((i, j)) => r == Some((i as usize, j as usize)),
        },
{
    let mut i: usize = 0;
    while i < starts.len()
        invariant
            i <= starts@.len(),
            shared_pair(starts@, goals@, i as nat) is None,
        decreases starts.len() - i,
    {
        let s = starts[i];
        let mut j: usize = 0;
        while j < goals.len()
            invariant
                i < starts@.len(),
                s == starts@[i as int],
                j <= goals@.len(),
                shared_pair(starts@, goals@, i as nat) is None,
                goal_match(s, goals@, j as nat) is None,
            decreases goals.len() - j,
        {
            let g = goals[j];
            if s.at_first_position && g.at_first_position && s.edge_node_idx == g.edge_node_idx
                && s.distance_from_start_m <= g.distance_from_start_m {
                proof {
                    assert(goal_match(s, goals@, (j + 1) as nat) == Some(j as int));
                    lemma_goal_match_prefix(s, goals@, (j + 1) as nat, goals@.len());
                    lemma_shared_pair_prefix(starts@, goals@, (i + 1) as nat, starts@.len());
                }
                return Some((i, j));
            }
            j = j + 1;
        }
        i = i + 1;
    }
    None
}

/// Once found, the first matching goal snap stays the first.
proof fn lemma_goal_match_prefix(s: SnapPoint, goals: Seq<SnapPoint>, n: nat, m: nat)
    requires
        n <= m,
        goal_match(s, goals, n) is Some,
    ensures
        goal_match(s, goals, m) == goal_match(s, goals, n),
    decreases m,
{
    if m > n {
        lemma_goal_match_prefix(s, goals, n, (m - 1) as nat);
    }
}

/// Once found, the first shared pair stays the first.
proof fn lemma_shared_pair_prefix(starts: Seq<SnapPoint>, goals: Seq<SnapPoint>, n: nat, m: nat)
    requires
        n <= m,
        shared_pair(starts, goals, n) is Some,
    ensures
        shared_pair(starts, goals, m) == shared_pair(starts, goals, n),
    decreases m,
{
    if m > n {
        lemma_shared_pair_prefix(starts, goals, n, (m - 1) as nat);
    }
}

/// The first neighbour of `s` that leads to `node`.
pub open spec fn first_to(s: Seq<Neighbour>, node: usize) -> Option<Neighbour>
    decreases s.len(),
{
    if s.len() == 0 {
        None
    } else if s[0].edge_node_idx == node {
        Some(s[0])
    } else {
        first_to(s.drop_first(), node)
    }
}

/// The first neighbour leading to `node` is the one at the first position
/// that does; there is none when no neighbour does.
proof fn lemma_first_to(s: Seq<Neighbour>, node: usize, i: int)
    requires
        0 <= i <= s.len(),
        forall|j: int| 0 <= j < i ==> (#[trigger] s[j]).edge_node_idx != node,
    ensures
        i < s.len() && s[i].edge_node_idx == node ==> first_to(s, node) == Some(s[i]),
        i == s.len() ==> first_to(s, node) is None,
    decreases s.len(),
{
    if s.len() > 0 && i > 0 {
        assert forall|j: int| 0 <= j < i - 1 implies (#[trigger] s.drop_first()[j]).edge_node_idx != node by {
            assert(s.drop_first()[j] == s[j + 1]);
        }
        lemma_first_to(s.drop_first(), node, i - 1);
        if i < s.len() {
            assert(s.drop_first()[i - 1] == s[i]);
        }
    }
}

/// The first neighbour leading to `node`, found by halving: all neighbours
/// before the found position lead to smaller edge nodes.
fn first_to_sorted(s: &Vec<Neighbour>, node: usize) -> (r: Option<Neighbour>)
    requires
        sorted_by_target(s@),
    ensures
        r == first_to(s@, node),
{
    let mut lo: usize = 0;
    let mut hi: usize = s.len();
    while lo < hi
        invariant
            lo <= hi <= s@.len(),
            sorted_by_target(s@),
            forall|j: int| 0 <= j < lo ==> (#[trigger] s@[j]).edge_node_idx < node,
            forall|j: int| hi <= j < s@.len() ==> (#[trigger] s@[j]).edge_node_idx >= node,
        decreases hi - lo,
    {
        let mid = lo + (hi - lo) / 2;
        if s[mid].edge_node_idx < node {
            lo = mid + 1;
        } else {
            hi = mid;
        }
    }
    proof {
        lemma_first_to(s@, node, lo as int);
    }
    if lo < s.len() && s[lo].edge_node_idx == node {
        Some(s[lo])
    } else {
        proof {
            assert forall|j: int| 0 <= j < s@.len() implies (#[trigger] s@[j]).edge_node_idx != node by {
                if j >= lo {
                    assert(s@[lo as int].edge_node_idx <= s@[j].edge_node_idx);
                }
            }
            lemma_first_to(s@, node, s@.len() as int);
        }
        None
    }
}

/// An edge from a real edge node to a virtual endpoint, at the cost of the
/// endpoint's first neighbour that is that edge node; none when the endpoint
/// is absent or has no such neighbour.
pub open spec fn joined(adjacent: Option<Seq<Neighbour>>, node: usize, endpoint: usize) -> Seq<Neighbour> {
    match adjacent {
        Some(a) => match first_to(a, node) {
            Some(e) => seq![Neighbour { edge_node_idx: endpoint, cost: e.cost }],
            None => Seq::empty(),
        },
        None => Seq::empty(),
    }
}

/// The cost of going straight from the start snap to the goal snap along the
/// edge node that the first shared pair of snaps lies on; `None` when there
/// is no such pair or the edge node or its way is missing or blocked.
pub open spec fn direct_cost<'a, C: CostModel>(g: RoadGraph<'a, C>, starts: Seq<SnapPoint>, goals: Seq<SnapPoint>) -> Option<
    usize,
> {
    match shared_pair(starts, goals, starts.len()) {
        None => None,
        Some((i, j)) => {
            let idx = starts[i].edge_node_idx;
            if idx >= g.edge_nodes@.len() {
                None
            } else {
                let en = g.edge_nodes@[idx as int];
                let wi = en.way_idx as usize;
                if wi >= g.ways@.len() {
                    None
                } else {
                    g.cost_model.traversal_spec(
                        (goals[j].distance_from_start_m - starts[i].distance_from_start_m) as usize,
                        en,
                        g.ways@[wi as int],
                    )
                }
            }
        },
    }
}

/// The direct edge that both virtual endpoints gain, when both exist and
/// `direct_cost` gives one, toward `to`.
pub open spec fn direct_edge<'a, C: CostModel>(
    g: RoadGraph<'a, C>,
    starts: Seq<SnapPoint>,
    goals: Seq<SnapPoint>,
    to: usize,
) -> Seq<Neighbour> {
    if endpoint_turns(g, starts, false) is Some && endpoint_turns(g, goals, true) is Some && direct_cost(
        g,
        starts,
        goals,
    ) is Some {
        seq![Neighbour { edge_node_idx: to, cost: direct_cost(g, starts, goals)->0 }]
    } else {
        Seq::empty()
    }
}

/// Copies a list of neighbours.
fn copy_neighbours(v: &Vec<Neighbour>) -> (r: Vec<Neighbour>)
    ensures
        r@ == v@,
{
    let mut r: Vec<Neighbour> = Vec::new();
    let mut i: usize = 0;
    while i < v.len()
        invariant
            i <= v@.len(),
            r@ == v@.subrange(0, i as int),
        decreases v.len() - i,
    {
        r.push(v[i]);
        proof {
            assert(v@.subrange(0, i + 1) =~= v@.subrange(0, i as int).push(v@[i as int]));
        }
        i = i + 1;
    }
    proof {
        assert(v@.subrange(0, i as int) =~= v@);
    }
    r
}

/// The road graph with a virtual start and a virtual goal edge node.
pub struct VirtualGraph<'a, C> {
    inner: RoadGraph<'a, C>,
    start: Option<Vec<Neighbour>>,
    goal: Option<Vec<Neighbour>>,
}

impl<'a, C> VirtualGraph<'a, C> {
    /// The endpoints' neighbours are sorted by the edge node they lead to.
    #[verifier::type_invariant]
    spec fn endpoints_sorted(self) -> bool {
        &&& (self.start matches Some(v) ==> sorted_by_target(v@))
        &&& (self.goal matches Some(v) ==> sorted_by_target(v@))
    }

    /// The real road graph.
    pub closed spec fn inner_spec(self) -> RoadGraph<'a, C> {
        self.inner
    }

    /// The outbound neighbours of the virtual start, when there is one.
    pub closed spec fn start_spec(self) -> Option<Seq<Neighbour>> {
        match self.start {
            Some(v) => Some(v@),
            None => None,
        }
    }

    /// The inbound neighbours of the virtual goal, when there is one.
    pub closed spec fn goal_spec(self) -> Option<Seq<Neighbour>> {
        match self.goal {
            Some(v) => Some(v@),
            None => None,
        }
    }
}

impl<'a, C: CostModel> VirtualGraph<'a, C> {
    /// The neighbours reached from `node`: the virtual start's own, none from
    /// the virtual goal, and for a real edge node its turns followed by the
    /// edge into the virtual goal where the goal lies beyond it.
    pub open spec fn outbound_spec(self, node: usize) -> Seq<Neighbour> {
        if node == VIRTUAL_START {
            match self.start_spec() {
                Some(a) => a,
                None => Seq::empty(),
            }
        } else if node == VIRTUAL_GOAL {
            Seq::empty()
        } else {
            self.inner_spec().outbound_spec(node) + joined(self.goal_spec(), node, VIRTUAL_GOAL)
        }
    }

    /// The neighbours leading into `node`: the virtual goal's own, none into
    /// the virtual start, and for a real edge node its turns followed by the
    /// edge from the virtual start where the start lies before it.
    pub open spec fn inbound_spec(self, node: usize) -> Seq<Neighbour> {
        if node == VIRTUAL_GOAL {
            match self.goal_spec() {
                Some(a) => a,
                None => Seq::empty(),
            }
        } else if node == VIRTUAL_START {
            Seq::empty()
        } else {
            self.inner_spec().inbound_spec(node) + joined(self.start_spec(), node, VIRTUAL_START)
        }
    }

    /// The road graph seen from the start snaps alone: the search starts at
    /// the returned edge node. `None` when a cost leaves `usize`.
    pub fn new_from_start(inner: RoadGraph<'a, C>, start_snaps: &[SnapPoint]) -> (r: Option<(Self, usize)>)
        requires
            costs_fit(inner.cost_model),
        ensures
            r is None <==> endpoint_fails(inner, start_snaps@, false),
            r matches Some((vg, s)) ==> {
                &&& vg.inner_spec() == inner
                &&& s == endpoint_index(start_snaps@, false)
                &&& vg.goal_spec() is None
                &&& match endpoint_turns(inner, start_snaps@, false) {
                    None => vg.start_spec() is None,
                    Some(t) => vg.start_spec() matches Some(a) && a.to_multiset() == t.to_multiset()
                        && sorted_by_target(a),
                }
            },
    {
        let (start, start_idx) = match build_endpoint(&inner, start_snaps, false) {
            Some(x) => x,
            None => {
                return None;
            },
        };
        let vg = VirtualGraph { inner, start, goal: None };
        Some((vg, start_idx))
    }

    /// The road graph seen from the start and goal snaps: the search runs
    /// between the returned edge nodes. Where the start and the goal lie on
    /// the same edge node, the start before the goal, the virtual start also
    /// leads straight to the virtual goal. `None` when a cost leaves `usize`.
    pub fn new(inner: RoadGraph<'a, C>, start_snaps: &[SnapPoint], goal_snaps: &[SnapPoint]) -> (r: Option<
        (Self, usize, usize),
    >)
        requires
            costs_fit(inner.cost_model),
        ensures
            r is None <==> endpoint_fails(inner, start_snaps@, false) || endpoint_fails(inner, goal_snaps@, true),
            r matches Some((vg, s, g)) ==> {
                &&& vg.inner_spec() == inner
                &&& s == endpoint_index(start_snaps@, false)
                &&& g == endpoint_index(goal_snaps@, true)
                &&& match endpoint_turns(inner, start_snaps@, false) {
                    None => vg.start_spec() is None,
                    Some(t) => vg.start_spec() matches Some(a) && a.to_multiset() == (t + direct_edge(
                        inner,
                        start_snaps@,
                        goal_snaps@,
                        VIRTUAL_GOAL,
                    )).to_multiset() && sorted_by_target(a),
                }
                &&& match endpoint_turns(inner, goal_snaps@, true) {
                    None => vg.goal_spec() is None,
                    Some(t) => vg.goal_spec() matches Some(a) && a.to_multiset() == (t + direct_edge(
                        inner,
                        start_snaps@,
                        goal_snaps@,
                        VIRTUAL_START,
                    )).to_multiset() && sorted_by_target(a),
                }
            },
    {
        let (start, start_idx) = match build_endpoint(&inner, start_snaps, false) {
            Some(x) => x,
            None => {
                return None;
            },
        };
        let (goal, goal_idx) = match build_endpoint(&inner, goal_snaps, true) {
            Some(x) => x,
            None => {
                return None;
            },
        };
        let mut direct: Option<usize> = None;
        if start.is_some() && goal.is_some() {
            if let Some((i, j)) = find_shared_snap(start_snaps, goal_snaps) {
                proof {
                    lemma_shared_pair_range(start_snaps@, goal_snaps@, start_snaps@.len());
                }
                let s = start_snaps[i];
                let t = goal_snaps[j];
                if s.edge_node_idx < inner.edge_nodes.len() {
                    let en = &inner.edge_nodes[s.edge_node_idx];
                    let wi = en.way_idx();
                    if wi < inner.ways.len() {
                        direct = inner.cost_model.traversal_cost(
                            t.distance_from_start_m - s.distance_from_start_m,
                            en,
                            &inner.ways[wi],
                        );
                    }
                }
            }
        }
        proof {
            assert(start is Some && goal is Some ==> direct == direct_cost(inner, start_snaps@, goal_snaps@));
        }
        let (start, goal) = match direct {
            Some(cost) => {
                let mut sv = start.unwrap();
                let mut gv = goal.unwrap();
                let ghost s0 = sv@;
                let ghost g0 = gv@;
                proof {
                    let _ = inner.edge_nodes.len();
                    assert forall|i: int, j: int| 0 <= i <= j < s0.len() + 1 implies (#[trigger] s0.push(
                        Neighbour { edge_node_idx: VIRTUAL_GOAL, cost },
                    )[i]).edge_node_idx <= (#[trigger] s0.push(
                        Neighbour { edge_node_idx: VIRTUAL_GOAL, cost },
                    )[j]).edge_node_idx by {
                        if j < s0.len() {
                            assert(s0[i].edge_node_idx <= s0[j].edge_node_idx);
                        } else if i < s0.len() {
                            assert(s0[i].edge_node_idx < inner.edge_nodes@.len());
                        }
                    }
                }
                sv.push(Neighbour { edge_node_idx: VIRTUAL_GOAL, cost });
                gv.push(Neighbour { edge_node_idx: VIRTUAL_START, cost });
                proof {
                    assert forall|i: int, j: int| 0 <= i <= j < gv@.len() implies (#[trigger] gv@[i]).edge_node_idx
                        <= (#[trigger] gv@[j]).edge_node_idx by {
                        if j < g0.len() {
                            assert(g0[i].edge_node_idx <= g0[j].edge_node_idx);
                        }
                    }
                    let ds = seq![Neighbour { edge_node_idx: VIRTUAL_GOAL, cost }];
                    let dg = seq![Neighbour { edge_node_idx: VIRTUAL_START, cost }];
                    let ts = endpoint_turns(inner, start_snaps@, false)->0;
                    let tg = endpoint_turns(inner, goal_snaps@, true)->0;
                    assert(sv@ == s0 + ds);
                    assert(gv@ == g0 + dg);
                    assert(direct_edge(inner, start_snaps@, goal_snaps@, VIRTUAL_GOAL) == ds);
                    assert(direct_edge(inner, start_snaps@, goal_snaps@, VIRTUAL_START) == dg);
                    vstd::seq_lib::lemma_multiset_commutative(s0, ds);
                    vstd::seq_lib::lemma_multiset_commutative(ts, ds);
                    vstd::seq_lib::lemma_multiset_commutative(g0, dg);
                    vstd::seq_lib::lemma_multiset_commutative(tg, dg);
                }
                (Some(sv), Some(gv))
            },
            None => {
                proof {
                    assert(direct_edge(inner, start_snaps@, goal_snaps@, VIRTUAL_GOAL) =~= Seq::<Neighbour>::empty());
                    assert(direct_edge(inner, start_snaps@, goal_snaps@, VIRTUAL_START) =~= Seq::<Neighbour>::empty());
                    if endpoint_turns(inner, start_snaps@, false) is Some {
                        let ts = endpoint_turns(inner, start_snaps@, false)->0;
                        assert(ts + Seq::<Neighbour>::empty() =~= ts);
                    }
                    if endpoint_turns(inner, goal_snaps@, true) is Some {
                        let tg = endpoint_turns(inner, goal_snaps@, true)->0;
                        assert(tg + Seq::<Neighbour>::empty() =~= tg);
                    }
                }
                (start, goal)
            },
        };
        let vg = VirtualGraph { inner, start, goal };
        Some((vg, start_idx, goal_idx))
    }

    /// The real road graph underneath.
    pub fn inner(&self) -> (r: &RoadGraph<'a, C>)
        ensures
            *r == self.inner_spec(),
    {
        &self.inner
    }

    /// The neighbours reached from `node`, as `outbound_spec` lists them.
    pub fn outbound(&self, node: usize) -> (r: Vec<Neighbour>)
        requires
            costs_fit(self.inner_spec().cost_model),
        ensures
            r@ == self.outbound_spec(node),
    {
        proof {
            use_type_invariant(self);
        }
        if node == VIRTUAL_START {
            match &self.start {
                Some(v) => copy_neighbours(v),
                None => Vec::new(),
            }
        } else if node == VIRTUAL_GOAL {
            Vec::new()
        } else {
            let mut r = self.inner.outbound(node);
            let ghost turns = r@;
            if let Some(g) = &self.goal {
                if let Some(e) = first_to_sorted(g, node) {
                    r.push(Neighbour { edge_node_idx: VIRTUAL_GOAL, cost: e.cost });
                    proof {
                        assert(r@ =~= turns + joined(self.goal_spec(), node, VIRTUAL_GOAL));
                    }
                    return r;
                }
            }
            proof {
                assert(r@ =~= turns + joined(self.goal_spec(), node, VIRTUAL_GOAL));
            }
            r
        }
    }

    /// The neighbours leading into `node`, as `inbound_spec` lists them.
    pub fn inbound(&self, node: usize) -> (r: Vec<Neighbour>)
        requires
            costs_fit(self.inner_spec().cost_model),
        ensures
            r@ == self.inbound_spec(node),
    {
        proof {
            use_type_invariant(self);
        }
        if node == VIRTUAL_GOAL {
            match &self.goal {
                Some(v) => copy_neighbours(v),
                None => Vec::new(),
            }
        } else if node == VIRTUAL_START {
            Vec::new()
        } else {
            let mut r = self.inner.inbound(node);
            let ghost turns = r@;
            if let Some(s) = &self.start {
                if let Some(e) = first_to_sorted(s, node) {
                    r.push(Neighbour { edge_node_idx: VIRTUAL_START, cost: e.cost });
                    proof {
                        assert(r@ =~= turns + joined(self.start_spec(), node, VIRTUAL_START));
                    }
                    return r;
                }
            }
            proof {
                assert(r@ =~= turns + joined(self.start_spec(), node, VIRTUAL_START));
            }
            r
        }
    }
}

/// The virtual start only leads into the graph and the virtual goal is only
/// led into: nothing enters the start and nothing leaves the goal.
pub proof fn lemma_virtual_ends<'a, C: CostModel>(vg: VirtualGraph<'a, C>)
    ensures
        vg.inbound_spec(VIRTUAL_START) == Seq::<Neighbour>::empty(),
        vg.outbound_spec(VIRTUAL_GOAL) == Seq::<Neighbour>::empty(),
{
}

} // verus!
