//! Planning of a distance matrix: which origin-destination pairs are routed,
//! how they are batched per origin, and which destination candidate wins.

use std::collections::HashMap;

use vstd::prelude::*;
use vstd::string::StringExecFns;

use crate::service::cost::CostModel;
use crate::service::error::Error;
use crate::service::graph::RoadGraph;
use crate::service::virtual_graph::SnapPoint;
use crate::text::{decimal_spec, push_decimal};

verus! {

broadcast use vstd::string::group_string_axioms;

/// Every pair of an origin below `n_from` and a destination below `n_to`,
/// origin by origin.
pub open spec fn all_pairs(n_from: nat, n_to: nat) -> Seq<(usize, usize)> {
    Seq::new(n_from * n_to, |k: int| ((k / n_to as int) as usize, (k % n_to as int) as usize))
}

/// Whether a pair names an existing origin and destination.
pub open spec fn pair_in_bounds(p: (usize, usize), n_from: nat, n_to: nat) -> bool {
    p.0 < n_from && p.1 < n_to
}

/// The message for a requested pair outside the locations.
pub open spec fn pair_error_text(p: (usize, usize), n_from: nat, n_to: nat) -> Seq<char> {
    "pair ("@ + decimal_spec(p.0 as nat) + ", "@ + decimal_spec(p.1 as nat) + ") out of bounds (from="@
        + decimal_spec(n_from) + ", to="@ + decimal_spec(n_to) + ")"@
}

/// Fails unless there is at least one origin and one destination.
pub fn check_matrix_sizes(n_from: usize, n_to: usize) -> (r: Result<(), Error>)
    ensures
        r is Ok <==> n_from > 0 && n_to > 0,
        !(n_from > 0 && n_to > 0) ==> (r matches Err(Error::InvalidRequest(m)) && m@
            == "from and to must not be empty"@),
{
    if n_from == 0 || n_to == 0 {
        return Err(Error::InvalidRequest(String::from_str("from and to must not be empty")));
    }
    Ok(())
}

fn pair_error(p: (usize, usize), n_from: usize, n_to: usize) -> (r: Error)
    ensures
        r matches Error::InvalidRequest(m) && m@ == pair_error_text(p, n_from as nat, n_to as nat),
{
    let mut s = String::from_str("pair (");
    push_decimal(&mut s, p.0 as u64);
    s.append(", ");
    push_decimal(&mut s, p.1 as u64);
    s.append(") out of bounds (from=");
    push_decimal(&mut s, n_from as u64);
    s.append(", to=");
    push_decimal(&mut s, n_to as u64);
    s.append(")");
    Error::InvalidRequest(s)
}

/// The pairs to route: all pairs when none are requested, else the requested
/// ones in their order, which must all lie within the locations; the first
/// that does not is reported.
pub fn matrix_pairs(n_from: usize, n_to: usize, requested: Vec<(usize, usize)>) -> (r: Result<
    Vec<(usize, usize)>,
    Error,
>)
    requires
        n_from * n_to <= usize::MAX,
    ensures
        requested@.len() == 0 ==> (r matches Ok(v) && v@ == all_pairs(n_from as nat, n_to as nat)),
        requested@.len() > 0 ==> match r {
            Ok(v) => v@ == requested@ && forall|k: int|
                0 <= k < requested@.len() ==> pair_in_bounds(#[trigger] requested@[k], n_from as nat, n_to as nat),
            Err(e) => exists|k: int|
                0 <= k < requested@.len() && !pair_in_bounds(requested@[k], n_from as nat, n_to as nat)
                    && (forall|l: int| 0 <= l < k ==> pair_in_bounds(#[trigger] requested@[l], n_from as nat, n_to as nat))
                    && (e matches Error::InvalidRequest(m) && m@ == pair_error_text(requested@[k], n_from as nat, n_to as nat)),
        },
{
    if requested.len() == 0 {
        let mut out: Vec<(usize, usize)> = Vec::new();
        let mut i: usize = 0;
        while i < n_from
            invariant
                i <= n_from,
                n_from * n_to <= usize::MAX,
                out@ =~= all_pairs(i as nat, n_to as nat),
            decreases n_from - i,
        {
            let mut j: usize = 0;
            proof {
                vstd::arithmetic::mul::lemma_mul_inequality(i + 1, n_from as int, n_to as int);
                vstd::arithmetic::mul::lemma_mul_is_distributive_add_other_way(n_to as int, i as int, 1);
            }
            while j < n_to
                invariant
                    i < n_from,
                    j <= n_to,
                    out@.len() == i * n_to + j,
                    forall|k: int|
                        0 <= k < out@.len() ==> #[trigger] out@[k] == ((k / n_to as int) as usize, (k
                            % n_to as int) as usize),
                decreases n_to - j,
            {
                proof {
                    vstd::arithmetic::div_mod::lemma_fundamental_div_mod_converse(
                        i * n_to + j,
                        n_to as int,
                        i as int,
                        j as int,
                    );
                }
                out.push((i, j));
                j = j + 1;
            }
            i = i + 1;
            proof {
                assert(out@ =~= all_pairs(i as nat, n_to as nat));
            }
        }
        return Ok(out);
    }
    let mut k: usize = 0;
    while k < requested.len()
        invariant
            k <= requested@.len(),
            forall|l: int| 0 <= l < k ==> pair_in_bounds(#[trigger] requested@[l], n_from as nat, n_to as nat),
        decreases requested.len() - k,
    {
        let p = requested[k];
        if p.0 >= n_from || p.1 >= n_to {
            return Err(pair_error(p, n_from, n_to));
        }
        k = k + 1;
    }
    Ok(requested)
}

/// The destinations of non-identical pairs from `origin` among the first `n`
/// pairs, each with its pair's position, in pair order.
pub open spec fn origin_batch(pairs: Seq<(usize, usize)>, identical: Seq<bool>, origin: usize, n: nat) -> Seq<
    (usize, usize),
>
    decreases n,
{
    if n == 0 {
        Seq::empty()
    } else {
        let rest = origin_batch(pairs, identical, origin, (n - 1) as nat);
        let p = pairs[n - 1];
        if !identical[n - 1] && p.0 == origin {
            rest.push(((n - 1) as usize, p.1))
        } else {
            rest
        }
    }
}

/// The batches of pairs per origin: every origin with a non-identical pair
/// maps to the positions and destinations of its pairs, in pair order.
pub open spec fn batches_of(
    map: Map<usize, Vec<(usize, usize)>>,
    pairs: Seq<(usize, usize)>,
    identical: Seq<bool>,
    n: nat,
) -> bool {
    forall|o: usize|
        #![trigger map.contains_key(o)]
        #![trigger origin_batch(pairs, identical, o, n)]
        (map.contains_key(o) <==> origin_batch(pairs, identical, o, n).len() > 0) && (map.contains_key(o)
            ==> map[o]@ == origin_batch(pairs, identical, o, n))
}

/// Groups the pairs that are not identical by their origin, keeping for each
/// its position among the pairs and its destination; identical pairs are
/// answered at once and are left out.
pub fn batch_by_origin(pairs: &Vec<(usize, usize)>, identical: &Vec<bool>) -> (r: HashMap<
    usize,
    Vec<(usize, usize)>,
>)
    requires
        identical@.len() == pairs@.len(),
    ensures
        batches_of(r@, pairs@, identical@, pairs@.len()),
{
    broadcast use vstd::std_specs::hash::group_hash_axioms;

    let mut map: HashMap<usize, Vec<(usize, usize)>> = HashMap::new();
    let mut k: usize = 0;
    while k < pairs.len()
        invariant
            k <= pairs@.len(),
            identical@.len() == pairs@.len(),
            batches_of(map@, pairs@, identical@, k as nat),
        decreases pairs.len() - k,
    {
        let ghost before = map@;
        let (i, j) = pairs[k];
        if !identical[k] {
            let batch = match map.remove(&i) {
                Some(mut v) => {
                    v.push((k, j));
                    v
                },
                None => {
                    let mut v: Vec<(usize, usize)> = Vec::new();
                    v.push((k, j));
                    v
                },
            };
            map.insert(i, batch);
        }
        proof {
            assert forall|o: usize|
                #![trigger map@.contains_key(o)]
                #![trigger origin_batch(pairs@, identical@, o, (k + 1) as nat)]
                (map@.contains_key(o) <==> origin_batch(pairs@, identical@, o, (k + 1) as nat).len() > 0)
                    && (map@.contains_key(o) ==> map@[o]@ == origin_batch(
                    pairs@,
                    identical@,
                    o,
                    (k + 1) as nat,
                )) by {
                assert(before.contains_key(o) <==> origin_batch(pairs@, identical@, o, k as nat).len() > 0);
                if before.contains_key(o) {
                    assert(before[o]@ == origin_batch(pairs@, identical@, o, k as nat));
                }
            }
        }
        k = k + 1;
    }
    map
}

/// The first candidate with the least cost below `usize::MAX`, as its cost
/// and position; `None` when no candidate has such a cost.
pub fn best_destination(costs: &Vec<Option<usize>>) -> (r: Option<(usize, usize)>)
    ensures
        r is None <==> forall|i: int|
            0 <= i < costs@.len() ==> (#[trigger] costs@[i] matches Some(c) ==> c == usize::MAX),
        r matches Some((c, i)) ==> {
            &&& i < costs@.len()
            &&& costs@[i as int] == Some(c)
            &&& c < usize::MAX
            &&& forall|j: int| 0 <= j < costs@.len() ==> (#[trigger] costs@[j] matches Some(d) ==> c <= d)
            &&& forall|j: int| 0 <= j < i ==> (#[trigger] costs@[j] matches Some(d) ==> c < d)
        },
{
    let mut best_cost: usize = usize::MAX;
    let mut best: usize = usize::MAX;
    let mut i: usize = 0;
    while i < costs.len()
        invariant
            i <= costs@.len(),
            best == usize::MAX ==> best_cost == usize::MAX,
            best == usize::MAX ==> forall|j: int|
                0 <= j < i ==> (#[trigger] costs@[j] matches Some(c) ==> c == usize::MAX),
            best != usize::MAX ==> best < i && costs@[best as int] == Some(best_cost) && best_cost < usize::MAX
                && forall|j: int| 0 <= j < best ==> (#[trigger] costs@[j] matches Some(d) ==> best_cost < d),
            forall|j: int| 0 <= j < i ==> (#[trigger] costs@[j] matches Some(d) ==> best_cost <= d),
        decreases costs.len() - i,
    {
        if let Some(c) = costs[i] {
            if c < best_cost {
                best_cost = c;
                best = i;
            }
        }
        i = i + 1;
    }
    if best < costs.len() {
        Some((best_cost, best))
    } else {
        None
    }
}

/// The cost of arriving at a destination snap: the settled cost of its edge
/// node plus the traversal of that edge node up to the snap; `None` when the
/// edge node was not settled or is missing, or its way is missing or blocked.
pub open spec fn arrival_cost<'a, C: CostModel>(g: RoadGraph<'a, C>, settled: Map<usize, usize>, s: SnapPoint) -> Option<
    nat,
> {
    let idx = s.edge_node_idx;
    if !settled.contains_key(idx) || idx >= g.edge_nodes@.len() {
        None
    } else {
        let en = g.edge_nodes@[idx as int];
        let wi = en.way_idx as usize;
        if wi >= g.ways@.len() {
            None
        } else {
            match g.cost_model.traversal_spec(s.distance_from_start_m, en, g.ways@[wi as int]) {
                Some(c) => Some((settled[idx] + c) as nat),
                None => None,
            }
        }
    }
}

/// The arrival costs of the destination snaps stay within `usize`.
pub open spec fn arrivals_fit<'a, C: CostModel>(g: RoadGraph<'a, C>, settled: Map<usize, usize>, snaps: Seq<SnapPoint>) -> bool {
    forall|i: int| 0 <= i < snaps.len() ==> (#[trigger] arrival_cost(g, settled, snaps[i]) matches Some(c) ==> c <= usize::MAX)
}

/// The cost of arriving at one destination snap, as `arrival_cost` gives it.
fn destination_cost_single<'a, C: CostModel>(snap: &SnapPoint, settled: &HashMap<usize, usize>, graph: &RoadGraph<'a, C>) -> (r:
    Option<usize>)
    requires
        arrival_cost(*graph, settled@, *snap) matches Some(c) ==> c <= usize::MAX,
    ensures
        match arrival_cost(*graph, settled@, *snap) {
            Some(c) => r == Some(c as usize),
            None => r is None,
        },
{
    broadcast use vstd::std_specs::hash::group_hash_axioms;

    let idx = snap.edge_node_idx;
    let base = match settled.get(&idx) {
        Some(b) => *b,
        None => {
            return None;
        },
    };
    if idx >= graph.edge_nodes.len() {
        return None;
    }
    let en = &graph.edge_nodes[idx];
    let wi = en.way_idx();
    if wi >= graph.ways.len() {
        return None;
    }
    match graph.cost_model.traversal_cost(snap.distance_from_start_m, en, &graph.ways[wi]) {
        Some(c) => Some(base + c),
        None => None,
    }
}

/// The cheapest way to arrive at a destination from a search's settled
/// costs: the least arrival cost below `usize::MAX` over the destination's
/// snaps, the first snap with it winning, with that snap's edge node. `None`
/// when no snap can be arrived at for less.
pub fn destination_cost<'a, C: CostModel>(to_snaps: &[SnapPoint], settled: &HashMap<usize, usize>, graph: &RoadGraph<'a, C>) -> (r:
    Option<(usize, usize)>)
    requires
        arrivals_fit(*graph, settled@, to_snaps@),
    ensures
        r is None <==> forall|i: int|
            0 <= i < to_snaps@.len() ==> (#[trigger] arrival_cost(*graph, settled@, to_snaps@[i]) matches Some(c)
                ==> c == usize::MAX),
        r matches Some((c, e)) ==> exists|i: int|
            {
                &&& 0 <= i < to_snaps@.len()
                &&& e == to_snaps@[i].edge_node_idx
                &&& arrival_cost(*graph, settled@, to_snaps@[i]) == Some(c as nat)
                &&& c < usize::MAX
                &&& forall|j: int|
                    0 <= j < to_snaps@.len() ==> (#[trigger] arrival_cost(*graph, settled@, to_snaps@[j]) matches Some(
                        d,
                    ) ==> c <= d)
                &&& forall|j: int|
                    0 <= j < i ==> (#[trigger] arrival_cost(*graph, settled@, to_snaps@[j]) matches Some(d) ==> c < d)
            },
{
    let mut costs: Vec<Option<usize>> = Vec::new();
    let mut i: usize = 0;
    while i < to_snaps.len()
        invariant
            i <= to_snaps@.len(),
            arrivals_fit(*graph, settled@, to_snaps@),
            costs@.len() == i,
            forall|j: int|
                0 <= j < i ==> match arrival_cost(*graph, settled@, to_snaps@[j]) {
                    Some(c) => #[trigger] costs@[j] == Some(c as usize),
                    None => costs@[j] is None,
                },
        decreases to_snaps.len() - i,
    {
        proof {
            assert(arrival_cost(*graph, settled@, to_snaps@[i as int]) matches Some(c) ==> c <= usize::MAX);
        }
        let c = destination_cost_single(&to_snaps[i], settled, graph);
        costs.push(c);
        i = i + 1;
    }
    match best_destination(&costs) {
        Some((c, k)) => {
            proof {
                assert forall|j: int| 0 <= j < to_snaps@.len() implies (#[trigger] arrival_cost(
                    *graph,
                    settled@,
                    to_snaps@[j],
                ) matches Some(d) ==> c <= d) by {
                    assert(costs@[j] matches Some(d) ==> c <= d);
                }
                assert forall|j: int| 0 <= j < k implies (#[trigger] arrival_cost(
                    *graph,
                    settled@,
                    to_snaps@[j],
                ) matches Some(d) ==> c < d) by {
                    assert(costs@[j] matches Some(d) ==> c < d);
                }
                assert(arrival_cost(*graph, settled@, to_snaps@[k as int]) == Some(c as nat));
            }
            Some((c, to_snaps[k].edge_node_idx))
        },
        None => {
            proof {
                assert forall|j: int| 0 <= j < to_snaps@.len() implies (#[trigger] arrival_cost(
                    *graph,
                    settled@,
                    to_snaps@[j],
                ) matches Some(c) ==> c == usize::MAX) by {
                    assert(costs@[j] matches Some(c) ==> c == usize::MAX);
                }
            }
            None
        },
    }
}

/// Where the answer for one pair of a matrix comes from.
#[derive(Copy, Clone, Debug, PartialEq, Eq, Structural)]
pub enum MatrixCell {
    /// Start and destination coincide: no time and no length.
    Same,
    /// The routed entry at this position of the routed list.
    Routed(usize),
}

/// The last of the first `m` routed entries for pair `k`.
pub open spec fn last_routed(routed: Seq<usize>, m: int, k: usize) -> Option<usize>
    decreases m,
{
    if m <= 0 {
        None
    } else if routed[m - 1] == k {
        Some((m - 1) as usize)
    } else {
        last_routed(routed, m - 1, k)
    }
}

/// The answer for pair `k` after the coinciding pairs were answered and the
/// routed entries written over them in order: the last routed entry for it,
/// else `Same` when it coincides, else none (it could not be routed).
pub open spec fn matrix_cell(identical: Seq<bool>, routed: Seq<usize>, k: usize) -> Option<MatrixCell> {
    match last_routed(routed, routed.len() as int, k) {
        Some(j) => Some(MatrixCell::Routed(j)),
        None => if identical[k as int] {
            Some(MatrixCell::Same)
        } else {
            None
        },
    }
}

/// The answers of a matrix in request order: for each pair, in order, its
/// cell, leaving out the pairs that have none. `routed` lists the pair of
/// each routed entry.
pub fn matrix_cells(identical: &Vec<bool>, routed: &Vec<usize>) -> (r: Vec<(usize, MatrixCell)>)
    requires
        forall|j: int| 0 <= j < routed@.len() ==> #[trigger] routed@[j] < identical@.len(),
    ensures
        forall|i: int, l: int| 0 <= i < l < r@.len() ==> (#[trigger] r@[i]).0 < (#[trigger] r@[l]).0,
        forall|i: int|
            0 <= i < r@.len() ==> (#[trigger] r@[i]).0 < identical@.len() && matrix_cell(identical@, routed@, r@[i].0)
                == Some(r@[i].1),
        forall|k: usize|
            k < identical@.len() && #[trigger] matrix_cell(identical@, routed@, k) is Some ==> exists|i: int|
                0 <= i < r@.len() && r@[i].0 == k,
{
    let n = identical.len();
    let mut cells: Vec<Option<MatrixCell>> = Vec::new();
    let mut k: usize = 0;
    while k < n
        invariant
            k <= n == identical@.len(),
            cells@.len() == k,
            forall|x: int| 0 <= x < k ==> #[trigger] cells@[x] == (if identical@[x] { Some(MatrixCell::Same) } else { None }),
        decreases n - k,
    {
        cells.push(if identical[k] { Some(MatrixCell::Same) } else { None });
        k = k + 1;
    }
    let mut j: usize = 0;
    while j < routed.len()
        invariant
            n == identical@.len(),
            cells@.len() == n,
            j <= routed@.len(),
            forall|x: int| 0 <= x < routed@.len() ==> #[trigger] routed@[x] < n,
            forall|x: int| 0 <= x < n ==> #[trigger] cells@[x] == match last_routed(routed@, j as int, x as usize) {
                Some(q) => Some(MatrixCell::Routed(q)),
                None => if identical@[x] { Some(MatrixCell::Same) } else { None },
            },
        decreases routed.len() - j,
    {
        let p = routed[j];
        cells.set(p, Some(MatrixCell::Routed(j)));
        j = j + 1;
    }
    let mut out: Vec<(usize, MatrixCell)> = Vec::new();
    let mut k: usize = 0;
    while k < n
        invariant
            n == identical@.len(),
            cells@.len() == n,
            k <= n,
            forall|x: int| 0 <= x < n ==> #[trigger] cells@[x] == matrix_cell(identical@, routed@, x as usize),
            forall|i: int, l: int| 0 <= i < l < out@.len() ==> (#[trigger] out@[i]).0 < (#[trigger] out@[l]).0,
            forall|i: int| 0 <= i < out@.len() ==> (#[trigger] out@[i]).0 < k,
            forall|i: int|
                0 <= i < out@.len() ==> matrix_cell(identical@, routed@, (#[trigger] out@[i]).0) == Some(out@[i].1),
            forall|x: usize|
                x < k && #[trigger] matrix_cell(identical@, routed@, x) is Some ==> exists|i: int|
                    0 <= i < out@.len() && out@[i].0 == x,
        decreases n - k,
    {
        match cells[k] {
            Some(c) => {
                let ghost before = out@;
                out.push((k, c));
                proof {
                    assert forall|x: usize|
                        x < k + 1 && #[trigger] matrix_cell(identical@, routed@, x) is Some implies exists|i: int|
                            0 <= i < out@.len() && out@[i].0 == x by {
                        if x == k {
                            assert(out@[before.len() as int].0 == x);
                        } else {
                            let i = choose|i: int| 0 <= i < before.len() && before[i].0 == x;
                            assert(out@[i].0 == x);
                        }
                    }
                }
            },
            None => {
                proof {
                    assert(cells@[k as int] == matrix_cell(identical@, routed@, k));
                }
            },
        }
        k = k + 1;
    }
    out
}


/// The travel time of one answer in milliseconds: none for coinciding start
/// and destination, else that of its routed entry.
pub open spec fn cell_duration(c: MatrixCell, routed_ms: Seq<u64>) -> u64 {
    match c {
        MatrixCell::Same => 0,
        MatrixCell::Routed(q) => routed_ms[q as int],
    }
}

/// The entries of a matrix answer, in the order of `cells` (see
/// [`matrix_cells`]): for each, the origin and destination of its pair and its
/// travel time in milliseconds, 0 where they coincide. `routed_ms` holds the
/// time of each routed entry.
pub fn matrix_durations(
    cells: &Vec<(usize, MatrixCell)>,
    pairs: &Vec<(usize, usize)>,
    routed_ms: &Vec<u64>,
) -> (r: Vec<(usize, usize, u64)>)
    requires
        forall|i: int| 0 <= i < cells@.len() ==> (#[trigger] cells@[i]).0 < pairs@.len() && (cells@[i].1 matches MatrixCell::Routed(q) ==> q < routed_ms@.len()),
    ensures
        r@.len() == cells@.len(),
        forall|i: int| 0 <= i < cells@.len() ==> #[trigger] r@[i] == (
            pairs@[cells@[i].0 as int].0,
            pairs@[cells@[i].0 as int].1,
            cell_duration(cells@[i].1, routed_ms@),
        ),
{
    let mut out: Vec<(usize, usize, u64)> = Vec::new();
    let mut i: usize = 0;
    while i < cells.len()
        invariant
            i <= cells@.len(),
            out@.len() == i,
            forall|x: int| 0 <= x < cells@.len() ==> (#[trigger] cells@[x]).0 < pairs@.len() && (cells@[x].1 matches MatrixCell::Routed(q) ==> q < routed_ms@.len()),
            forall|x: int| 0 <= x < i ==> #[trigger] out@[x] == (
                pairs@[cells@[x].0 as int].0,
                pairs@[cells@[x].0 as int].1,
                cell_duration(cells@[x].1, routed_ms@),
            ),
        decreases cells.len() - i,
    {
        let (k, c) = cells[i];
        let (from, to) = pairs[k];
        let ms: u64 = match c {
            MatrixCell::Same => 0,
            MatrixCell::Routed(q) => routed_ms[q],
        };
        out.push((from, to, ms));
        i = i + 1;
    }
    out
}

} // verus!
