//! One direction of an A* search: distances, predecessor links and a queue
//! ordered by distance plus the heuristic's estimate of what remains.

use std::collections::HashMap;
use vstd::prelude::*;

use super::queue::{
    distance_of, goes_first, lemma_keys_len, lemma_potential_improve, lemma_removed, pop_best,
    potential, HeapEntry,
};
use super::search::nbrs_bounded_at;
use super::walk::{
    adj, bounded, is_walk, lemma_reaches_push, lemma_walk_empty, lemma_walk_push, lemma_walk_split,
    lower_bound, node_at, node_bounded, pred_link, pred_ranked, reachable, reaches, step_ok,
    walk_cost, walk_end, walk_nodes, walk_to, reverse_consistent, is_succ_chain, succ_link,
    lemma_walk_concat, lemma_walk_nodes_concat,
};
use super::{Graph, Neighbour};

verus! {

broadcast use vstd::std_specs::hash::group_hash_axioms;

/// The estimate that guides a search in either direction toward `aim`: the
/// heuristic from `v` to `aim` (toward the goal forward, toward the start
/// backward).
pub open spec fn estimate<G: Graph>(g: &G, forward: bool, aim: usize, v: usize) -> Option<usize> {
    g.heuristic_spec(v, aim)
}

/// No estimate toward `aim` from a node below `n` exceeds `mh`.
pub open spec fn estimates_bounded<G: Graph>(g: &G, forward: bool, aim: usize, n: nat, mh: nat) -> bool {
    forall|v: usize|
        v < n ==> (#[trigger] estimate(g, forward, aim, v) matches Some(x) ==> x <= mh)
}

/// The heuristic never overestimates the cost to `goal`, and it gives no
/// estimate only from nodes that cannot reach `goal`.
pub open spec fn admissible<G: Graph>(g: &G, goal: usize) -> bool {
    forall|v: usize| #[trigger]
        reachable(g, true, v, goal) ==> (g.heuristic_spec(v, goal) matches Some(h) && lower_bound(
            g,
            true,
            v,
            goal,
            h as nat,
        ))
}

/// The state of an A* search from `origin` toward `aim`.
///
/// `expanded` holds the nodes whose edges were relaxed, `exp` the distance
/// each had when last expanded, `via` the cost of the edge from each node's
/// predecessor, and `stamp` the time of each node's last change.
pub struct Guided {
    pub dist: HashMap<usize, usize>,
    pub pred: HashMap<usize, usize>,
    pub heap: Vec<HeapEntry>,
    pub origin: usize,
    pub aim: usize,
    pub forward: bool,
    pub expanded: Ghost<Set<usize>>,
    pub exp: Ghost<Map<usize, nat>>,
    pub via: Ghost<Map<usize, usize>>,
    pub stamp: Ghost<Map<usize, nat>>,
    pub clock: Ghost<nat>,
}

impl Guided {
    /// The distance map holds the origin at zero and only nodes below `n`,
    /// every other node it holds has a predecessor, and expanded nodes have
    /// distances.
    pub open spec fn maps_ok(self, n: nat) -> bool {
        &&& self.dist@.dom().finite()
        &&& self.dist@.contains_key(self.origin)
        &&& self.dist@[self.origin] == 0
        &&& forall|v: usize| #[trigger] self.dist@.contains_key(v) ==> v < n
        &&& forall|v: usize| #[trigger]
            self.pred@.contains_key(v) <==> (self.dist@.contains_key(v) && v != self.origin)
        &&& forall|v: usize| #[trigger]
            self.expanded@.contains(v) ==> self.dist@.contains_key(v) && self.exp@.contains_key(v)
                && self.dist@[v] <= self.exp@[v]
        &&& forall|v: usize| #[trigger]
            self.dist@.contains_key(v) ==> self.stamp@.contains_key(v) && self.stamp@[v]
                < self.clock@
    }

    /// Every predecessor link is an edge whose cost, added to the
    /// predecessor's distance, is at most the node's distance; a link between
    /// equal distances goes from an earlier change to a later one.
    pub open spec fn links_ok<G: Graph>(self, g: &G) -> bool {
        forall|v: usize| #[trigger]
            self.pred@.contains_key(v) ==> {
                let u = self.pred@[v];
                &&& self.dist@.contains_key(u)
                &&& self.via@.contains_key(v)
                &&& self.dist@[u] + self.via@[v] <= self.dist@[v]
                &&& adj(g, self.forward, u).contains(Neighbour { edge_node_idx: v, cost: self.via@[v] })
                &&& self.dist@[u] == self.dist@[v] ==> self.stamp@[u] < self.stamp@[v]
            }
    }

    /// Every distance is the cost of a walk from the origin.
    pub open spec fn sound<G: Graph>(self, g: &G) -> bool {
        forall|v: usize| #[trigger]
            self.dist@.contains_key(v) ==> reaches(g, self.forward, self.origin, v, self.dist@[v] as nat)
    }

    /// Edge `i` of the expanded node `u` has been relaxed from the distance
    /// `u` had when expanded.
    pub open spec fn relaxed<G: Graph>(self, g: &G, u: usize, i: int) -> bool {
        let nb = adj(g, self.forward, u)[i];
        self.dist@.contains_key(nb.edge_node_idx) && self.dist@[nb.edge_node_idx] <= self.exp@[u] + nb.cost
    }

    /// The edges of every expanded node but `pending` have been relaxed.
    pub open spec fn closed<G: Graph>(self, g: &G, pending: Option<usize>) -> bool {
        forall|u: usize, i: int|
            #![trigger self.expanded@.contains(u), adj(g, self.forward, u)[i]]
            self.expanded@.contains(u) && pending != Some(u) && 0 <= i < adj(g, self.forward, u).len()
                ==> self.relaxed(g, u, i)
    }

    /// A queue entry names a node with a distance and an estimate, is ordered
    /// by its cost plus that estimate, costs no less than the distance, and
    /// its cost is that of a walk.
    pub open spec fn entry_ok<G: Graph>(self, g: &G, e: HeapEntry) -> bool {
        &&& self.dist@.contains_key(e.position)
        &&& self.dist@[e.position] <= e.cost
        &&& estimate(g, self.forward, self.aim, e.position) matches Some(h) && e.priority == e.cost + h
        &&& reaches(g, self.forward, self.origin, e.position, e.cost as nat)
    }

    /// The queue holds an entry for `v` at its current distance.
    pub open spec fn queued(self, v: usize) -> bool {
        exists|k: int|
            0 <= k < self.heap@.len() && #[trigger] self.heap@[k].position == v && self.heap@[k].cost
                == self.dist@[v]
    }

    /// Every node with a distance and an estimate was expanded at that
    /// distance or waits in the queue at it.
    pub open spec fn frontier<G: Graph>(self, g: &G) -> bool {
        forall|v: usize| #[trigger]
            self.dist@.contains_key(v) ==> estimate(g, self.forward, self.aim, v) is None || (
            self.expanded@.contains(v) && self.exp@[v] == self.dist@[v]) || self.queued(v)
    }

    /// Each distance is at most `mc` times one less than the number of
    /// nodes with a distance.
    pub open spec fn bounds_ok(self, mc: nat) -> bool {
        forall|v: usize| #[trigger]
            self.dist@.contains_key(v) ==> self.dist@[v] + mc <= mc * self.dist@.dom().len()
    }

    /// All invariants; `pending` is the expanded node whose edges are being relaxed.
    pub open spec fn wf<G: Graph>(self, g: &G, n: nat, mc: nat, pending: Option<usize>) -> bool {
        &&& self.maps_ok(n)
        &&& self.links_ok(g)
        &&& self.sound(g)
        &&& self.closed(g, pending)
        &&& forall|k: int| 0 <= k < self.heap@.len() ==> self.entry_ok(g, #[trigger] self.heap@[k])
        &&& self.frontier(g)
        &&& self.bounds_ok(mc)
        &&& pending matches Some(u) ==> self.expanded@.contains(u) && self.exp@[u] == self.dist@[u]
    }

    /// The fields that searching never changes.
    pub open spec fn same_setup(self, other: Guided) -> bool {
        self.origin == other.origin && self.forward == other.forward && self.aim == other.aim
    }

    /// A search that has only reached its origin, queued at `first`, the
    /// origin's estimate, when there is one.
    pub fn new<G: Graph>(g: &G, origin: usize, aim: usize, forward: bool, first: Option<usize>, Ghost(n): Ghost<nat>, Ghost(mc): Ghost<nat>) -> (s: Guided)
        requires
            origin < n,
            bounded(g, n, mc),
            estimate(g, forward, aim, origin) == first,
        ensures
            s.wf(g, n, mc, None),
            s.origin == origin,
            s.aim == aim,
            s.forward == forward,
            s.dist@ == map![origin => 0usize],
            s.pred@ == Map::<usize, usize>::empty(),
            s.expanded@ == Set::<usize>::empty(),
            s.heap@.len() == (if first is Some { 1nat } else { 0nat }),
    {
        let mut dist: HashMap<usize, usize> = HashMap::new();
        dist.insert(origin, 0);
        let pred: HashMap<usize, usize> = HashMap::new();
        let mut heap: Vec<HeapEntry> = Vec::new();
        if let Some(p) = first {
            heap.push(HeapEntry { priority: p, cost: 0, position: origin });
        }
        let s = Guided {
            dist,
            pred,
            heap,
            origin,
            aim,
            forward,
            expanded: Ghost(Set::empty()),
            exp: Ghost(Map::empty()),
            via: Ghost(Map::empty()),
            stamp: Ghost(Map::<usize, nat>::empty().insert(origin, 0nat)),
            clock: Ghost(1),
        };
        proof {
            assert(s.dist@ =~= map![origin => 0usize]);
            lemma_walk_empty(g, forward, origin);
            assert(s.dist@.dom() =~= set![origin]);
            assert(s.dist@.dom().len() == 1);
            assert(mc * 1 == mc) by (nonlinear_arith);
            if first is Some {
                assert(s.heap@[0].position == origin);
                assert(s.queued(origin));
                assert(s.entry_ok(g, s.heap@[0]));
            }
        }
        s
    }

    /// Takes the first entry out of the queue and returns it with whether it
    /// is fresh, at the distance of its node.  A fresh entry expands its node.
    pub fn pop<G: Graph>(&mut self, g: &G, Ghost(n): Ghost<nat>, Ghost(mc): Ghost<nat>) -> (r: (HeapEntry, bool))
        requires
            old(self).wf(g, n, mc, None),
            old(self).heap@.len() > 0,
        ensures
            final(self).same_setup(*old(self)),
            final(self).dist@ == old(self).dist@,
            final(self).pred@ == old(self).pred@,
            final(self).heap@.len() == old(self).heap@.len() - 1,
            exists|i: int| 0 <= i < old(self).heap@.len() && old(self).heap@[i] == r.0,
            forall|k: int| 0 <= k < old(self).heap@.len() ==> goes_first(r.0, #[trigger] old(self).heap@[k]),
            old(self).entry_ok(g, r.0),
            forall|k: int|
                0 <= k < final(self).heap@.len() ==> exists|j: int|
                    0 <= j < old(self).heap@.len() && #[trigger] final(self).heap@[k] == old(self).heap@[j],
            r.1 == (r.0.cost == old(self).dist@[r.0.position]),
            !r.1 ==> final(self).wf(g, n, mc, None) && final(self).expanded@ == old(self).expanded@,
            r.1 ==> final(self).wf(g, n, mc, Some(r.0.position)) && final(self).expanded@ == old(self).expanded@.insert(r.0.position),
    {
        let ghost s0 = *self;
        let (e, Ghost(i)) = pop_best(&mut self.heap);
        proof {
            lemma_removed(s0.heap@, i);
            assert(s0.entry_ok(g, s0.heap@[i]));
        }
        let cur = match distance_of(&self.dist, e.position) {
            Some(d) => d,
            None => usize::MAX,
        };
        let fresh = e.cost == cur;
        proof {
            if fresh {
                self.expanded@ = s0.expanded@.insert(e.position);
                self.exp@ = s0.exp@.insert(e.position, e.cost as nat);
            }
            assert forall|k: int| 0 <= k < self.heap@.len() implies #[trigger] self.entry_ok(g, self.heap@[k]) by {
                let j = if k == i { s0.heap@.len() - 1 } else { k };
                assert(s0.entry_ok(g, s0.heap@[j]));
                assert(self.heap@[k] == s0.heap@[j]);
            }
            assert forall|v: usize| #[trigger] self.dist@.contains_key(v) implies estimate(g, self.forward, self.aim, v) is None || (
                self.expanded@.contains(v) && self.exp@[v] == self.dist@[v]) || self.queued(v) by {
                if estimate(g, self.forward, self.aim, v) is Some && !(fresh && v == e.position) {
                    if !(s0.expanded@.contains(v) && s0.exp@[v] == s0.dist@[v]) {
                        assert(s0.queued(v));
                        let k = choose|k: int| 0 <= k < s0.heap@.len() && #[trigger] s0.heap@[k].position == v && s0.heap@[k].cost == s0.dist@[v];
                        assert(k != i);
                        let k2 = if k == s0.heap@.len() - 1 { i } else { k };
                        assert(self.heap@[k2] == s0.heap@[k]);
                    }
                }
            }
            assert forall|uu: usize, ii: int|
                #![trigger self.expanded@.contains(uu), adj(g, self.forward, uu)[ii]]
                self.expanded@.contains(uu) && (if fresh { Some(e.position) } else { None }) != Some(uu)
                    && 0 <= ii < adj(g, self.forward, uu).len() implies self.relaxed(g, uu, ii) by {
                assert(s0.expanded@.contains(uu));
                assert(s0.relaxed(g, uu, ii));
            }
            assert forall|k: int| 0 <= k < self.heap@.len() implies exists|j: int| 0 <= j < s0.heap@.len() && #[trigger] self.heap@[k] == s0.heap@[j] by {
                let j = if k == i { s0.heap@.len() - 1 } else { k };
                assert(self.heap@[k] == s0.heap@[j]);
            }
            assert forall|v: usize| #[trigger] self.expanded@.contains(v) implies self.dist@.contains_key(v) && self.exp@.contains_key(v)
                && self.dist@[v] <= self.exp@[v] by {
                if v != e.position || !fresh {
                    assert(s0.expanded@.contains(v));
                }
            }
        }
        (e, fresh)
    }

    /// Relaxes the edges of the expanded node `u` at distance `d`, in their
    /// order: an edge that reaches its target for less than the target's
    /// distance gives the target that distance and `u` as predecessor, and
    /// queues it when the heuristic has an estimate for it.  Returns these
    /// changes in order, as (node, new distance).
    pub fn relax<G: Graph>(&mut self, g: &G, u: usize, d: usize, Ghost(n): Ghost<nat>, Ghost(mc): Ghost<nat>, Ghost(mh): Ghost<nat>) -> (changes: Vec<(usize, usize)>)
        requires
            old(self).wf(g, n, mc, Some(u)),
            old(self).dist@.contains_key(u),
            old(self).dist@[u] == d,
            bounded(g, n, mc),
            estimates_bounded(g, old(self).forward, old(self).aim, n, mh),
            n * mc + mh <= usize::MAX,
        ensures
            final(self).wf(g, n, mc, None),
            final(self).same_setup(*old(self)),
            final(self).expanded@ == old(self).expanded@,
            potential(final(self).dist@, n) <= potential(old(self).dist@, n),
            potential(final(self).dist@, n) == potential(old(self).dist@, n) ==> final(self).heap@.len()
                == old(self).heap@.len(),
            forall|v: usize| #[trigger]
                old(self).dist@.contains_key(v) ==> final(self).dist@.contains_key(v)
                    && final(self).dist@[v] <= old(self).dist@[v],
            forall|v: usize| #[trigger]
                final(self).dist@.contains_key(v) && (!old(self).dist@.contains_key(v)
                    || final(self).dist@[v] != old(self).dist@[v]) ==> exists|j: int|
                    0 <= j < changes.len() && #[trigger] changes@[j] == (v, final(self).dist@[v]),
            forall|j: int|
                0 <= j < changes.len() ==> final(self).dist@.contains_key(#[trigger] changes@[j].0)
                    && final(self).dist@[changes@[j].0] <= changes@[j].1,
    {
        let ghost s0 = *self;
        proof {
            assert(s0.dist@.contains_key(u));
            assert(node_bounded(g, u, n, mc));
        }
        let nbs = if self.forward {
            g.outbound(u)
        } else {
            g.inbound(u)
        };
        let mut changes: Vec<(usize, usize)> = Vec::new();
        let mut j: usize = 0;
        while j < nbs.len()
            invariant
                bounded(g, n, mc),
                estimates_bounded(g, s0.forward, s0.aim, n, mh),
                n * mc + mh <= usize::MAX,
                u < n,
                node_bounded(g, u, n, mc),
                nbs@ == adj(g, s0.forward, u),
                0 <= j <= nbs.len(),
                self.same_setup(s0),
                self.expanded@ == s0.expanded@,
                self.dist@.contains_key(u),
                self.dist@[u] == d,
                self.wf(g, n, mc, Some(u)),
                forall|i: int| 0 <= i < j ==> self.relaxed(g, u, i),
                potential(self.dist@, n) <= potential(s0.dist@, n),
                potential(self.dist@, n) == potential(s0.dist@, n) ==> self.heap@.len() == s0.heap@.len(),
                forall|v: usize| #[trigger]
                    s0.dist@.contains_key(v) ==> self.dist@.contains_key(v) && self.dist@[v] <= s0.dist@[v],
                forall|v: usize| #[trigger]
                    self.dist@.contains_key(v) && (!s0.dist@.contains_key(v) || self.dist@[v] != s0.dist@[v])
                        ==> exists|k: int| 0 <= k < changes.len() && #[trigger] changes@[k] == (v, self.dist@[v]),
                forall|k: int|
                    0 <= k < changes.len() ==> self.dist@.contains_key(#[trigger] changes@[k].0)
                        && self.dist@[changes@[k].0] <= changes@[k].1,
            decreases nbs.len() - j,
        {
            let nb = nbs[j];
            let v = nb.edge_node_idx;
            proof {
                assert(nbs@[j as int] == nb);
                assert(nbrs_bounded_at(adj(g, s0.forward, u), j as int, n, mc));
                lemma_keys_len(self.dist@, n);
                assert(mc * self.dist@.dom().len() <= n * mc) by (nonlinear_arith)
                    requires self.dist@.dom().len() <= n;
                assert(d + mc <= mc * self.dist@.dom().len());
                assert(d + nb.cost <= n * mc);
            }
            let next = d + nb.cost;
            let better = match distance_of(&self.dist, v) {
                Some(old_d) => next < old_d,
                None => true,
            };
            if better {
                let ghost s1 = *self;
                let ghost cl = s1.clock@;
                let ghost ch0 = changes@;
                self.dist.insert(v, next);
                self.pred.insert(v, u);
                let est = g.heuristic(v, self.aim);
                let ghost s_mid = *self;
                match est {
                    Some(h) => {
                        proof {
                            assert(estimate(g, s0.forward, s0.aim, v) == Some(h));
                            assert(h <= mh);
                        }
                        self.heap.push(HeapEntry { priority: next + h, cost: next, position: v });
                    },
                    None => {},
                }
                changes.push((v, next));
                proof {
                    self.stamp@ = s1.stamp@.insert(v, cl);
                    self.clock@ = cl + 1;
                    self.via@ = s1.via@.insert(v, nb.cost);
                    self.relax_step_facts(s1, g, n, mc, u, d, j as int, nb, est);
                    assert forall|x: usize| #[trigger]
                        self.dist@.contains_key(x) && (!s0.dist@.contains_key(x) || self.dist@[x] != s0.dist@[x])
                        implies exists|k: int| 0 <= k < changes.len() && #[trigger] changes@[k] == (x, self.dist@[x]) by {
                        if x == v {
                            assert(changes@[ch0.len() as int] == (x, self.dist@[x]));
                        } else {
                            assert(s1.dist@.contains_key(x));
                            let k = choose|k: int| 0 <= k < ch0.len() && #[trigger] ch0[k] == (x, s1.dist@[x]);
                            assert(changes@[k] == ch0[k]);
                        }
                    }
                }
            }
            j = j + 1;
        }
        changes
    }

    /// What one lowering of a distance during `relax` keeps.
    proof fn relax_step_facts<G: Graph>(self, s1: Guided, g: &G, n: nat, mc: nat, u: usize, d: usize, j: int, nb: Neighbour, est: Option<usize>)
        requires
            bounded(g, n, mc),
            s1.wf(g, n, mc, Some(u)),
            s1.dist@.contains_key(u),
            s1.dist@[u] == d,
            u < n,
            node_bounded(g, u, n, mc),
            0 <= j < adj(g, s1.forward, u).len(),
            adj(g, s1.forward, u)[j] == nb,
            !s1.dist@.contains_key(nb.edge_node_idx) || d + nb.cost < s1.dist@[nb.edge_node_idx],
            d + nb.cost <= usize::MAX,
            est matches Some(h) ==> d + nb.cost + h <= usize::MAX,
            est == estimate(g, s1.forward, s1.aim, nb.edge_node_idx),
            self.same_setup(s1),
            self.expanded@ == s1.expanded@,
            self.exp@ == s1.exp@,
            self.dist@ == s1.dist@.insert(nb.edge_node_idx, (d + nb.cost) as usize),
            self.pred@ == s1.pred@.insert(nb.edge_node_idx, u),
            self.via@ == s1.via@.insert(nb.edge_node_idx, nb.cost),
            est matches Some(h) ==> self.heap@ == s1.heap@.push(HeapEntry { priority: (d + nb.cost + h) as usize, cost: (d + nb.cost) as usize, position: nb.edge_node_idx }),
            est is None ==> self.heap@ == s1.heap@,
            self.stamp@ == s1.stamp@.insert(nb.edge_node_idx, s1.clock@),
            self.clock@ == s1.clock@ + 1,
        ensures
            self.wf(g, n, mc, Some(u)),
            forall|i: int| 0 <= i < adj(g, s1.forward, u).len() && s1.relaxed(g, u, i) ==> self.relaxed(g, u, i),
            self.relaxed(g, u, j),
            potential(self.dist@, n) < potential(s1.dist@, n),
            forall|x: usize| #[trigger] s1.dist@.contains_key(x) ==> self.dist@.contains_key(x) && self.dist@[x] <= s1.dist@[x],
    {
        let v = nb.edge_node_idx;
        let next = (d + nb.cost) as usize;
        assert(v < n && nb.cost <= mc) by {
            assert(nbrs_bounded_at(adj(g, s1.forward, u), j, n, mc));
        }
        assert(v != s1.origin);
        assert(v != u);
        assert(s1.exp@[u] == d);
        lemma_potential_improve(s1.dist@, v, next, n);
        lemma_keys_len(s1.dist@, n);
        assert(self.dist@.dom() == s1.dist@.dom().insert(v));
        assert forall|x: usize| #[trigger] self.dist@.contains_key(x) implies x < n by {
            if x != v {
                assert(s1.dist@.contains_key(x));
            }
        }
        assert forall|x: usize| #[trigger] self.pred@.contains_key(x) <==> (self.dist@.contains_key(x) && x != self.origin) by {
            if x != v {
                assert(s1.pred@.contains_key(x) <==> (s1.dist@.contains_key(x) && x != s1.origin));
            }
        }
        assert forall|x: usize| #[trigger] self.expanded@.contains(x) implies self.dist@.contains_key(x) && self.exp@.contains_key(x)
            && self.dist@[x] <= self.exp@[x] by {
            assert(s1.expanded@.contains(x));
        }
        assert forall|x: usize| #[trigger] self.dist@.contains_key(x) implies self.stamp@.contains_key(x) && self.stamp@[x] < self.clock@ by {
            if x != v {
                assert(s1.dist@.contains_key(x));
            }
        }
        assert(adj(g, self.forward, u).contains(Neighbour { edge_node_idx: v, cost: nb.cost })) by {
            assert(adj(g, self.forward, u)[j] == Neighbour { edge_node_idx: v, cost: nb.cost });
        }
        assert forall|x: usize| #[trigger] self.pred@.contains_key(x) implies {
            let y = self.pred@[x];
            &&& self.dist@.contains_key(y)
            &&& self.via@.contains_key(x)
            &&& self.dist@[y] + self.via@[x] <= self.dist@[x]
            &&& adj(g, self.forward, y).contains(Neighbour { edge_node_idx: x, cost: self.via@[x] })
            &&& self.dist@[y] == self.dist@[x] ==> self.stamp@[y] < self.stamp@[x]
        } by {
            if x != v {
                assert(s1.pred@.contains_key(x));
                let y = s1.pred@[x];
                assert(s1.dist@.contains_key(y));
            }
        }
        assert(s1.sound(g));
        lemma_reaches_push(g, s1.forward, s1.origin, u, d as nat, nb);
        assert forall|x: usize| #[trigger] self.dist@.contains_key(x) implies reaches(g, self.forward, self.origin, x, self.dist@[x] as nat) by {
            if x != v {
                assert(s1.dist@.contains_key(x));
            }
        }
        assert forall|uu: usize, ii: int|
            #![trigger self.expanded@.contains(uu), adj(g, self.forward, uu)[ii]]
            self.expanded@.contains(uu) && Some(u) != Some(uu) && 0 <= ii < adj(g, self.forward, uu).len() implies self.relaxed(g, uu, ii) by {
            assert(s1.expanded@.contains(uu));
            assert(s1.relaxed(g, uu, ii));
        }
        assert forall|i: int| 0 <= i < adj(g, s1.forward, u).len() && s1.relaxed(g, u, i) implies self.relaxed(g, u, i) by {
        }
        let h = self.heap@;
        assert forall|k: int| 0 <= k < h.len() implies #[trigger] self.entry_ok(g, h[k]) by {
            if k < s1.heap@.len() {
                assert(s1.entry_ok(g, s1.heap@[k]));
                assert(h[k] == s1.heap@[k]);
            }
        }
        assert forall|x: usize| #[trigger] self.dist@.contains_key(x) implies estimate(g, self.forward, self.aim, x) is None || (
            self.expanded@.contains(x) && self.exp@[x] == self.dist@[x]) || self.queued(x) by {
            if x == v {
                if est is Some {
                    assert(h[h.len() - 1].position == v);
                }
            } else if estimate(g, self.forward, self.aim, x) is Some && !(self.expanded@.contains(x) && self.exp@[x] == self.dist@[x]) {
                assert(s1.dist@.contains_key(x));
                assert(s1.queued(x));
                let k = choose|k: int| 0 <= k < s1.heap@.len() && #[trigger] s1.heap@[k].position == x && s1.heap@[k].cost == s1.dist@[x];
                assert(h[k] == s1.heap@[k]);
            }
        }
        assert(s1.dist@[u] + mc <= mc * s1.dist@.dom().len());
        let l0 = s1.dist@.dom().len();
        let l1 = self.dist@.dom().len();
        if s1.dist@.contains_key(v) {
            assert(s1.dist@.dom().insert(v) =~= s1.dist@.dom());
        }
        assert(l0 <= l1 <= l0 + 1);
        assert(mc * l0 <= mc * l1) by (nonlinear_arith)
            requires l0 <= l1;
        assert(!s1.dist@.contains_key(v) ==> l1 == l0 + 1);
        assert(mc * (l0 + 1) == mc * l0 + mc) by (nonlinear_arith);
        assert forall|x: usize| #[trigger] self.dist@.contains_key(x) implies self.dist@[x] + mc <= mc * l1 by {
            if x != v {
                assert(s1.dist@.contains_key(x));
            } else if s1.dist@.contains_key(v) {
                assert(s1.dist@[v] + mc <= mc * l0);
            }
        }
    }

    /// The distances and predecessor links of a valid search are acyclic.
    pub proof fn lemma_ranked<G: Graph>(self, g: &G, n: nat, mc: nat, pending: Option<usize>)
        requires
            self.wf(g, n, mc, pending),
        ensures
            exists|rank: Map<usize, nat>| pred_ranked(self.pred@, rank),
    {
        let c = self.clock@;
        let rank = Map::new(
            |v: usize| self.dist@.contains_key(v),
            |v: usize| (self.dist@[v] * c + self.stamp@[v]) as nat,
        );
        assert forall|v: usize| #[trigger] self.pred@.contains_key(v) implies rank.contains_key(v)
            && rank.contains_key(self.pred@[v]) && rank[self.pred@[v]] < rank[v] by {
            let u = self.pred@[v];
            let du = self.dist@[u] as int;
            let dv = self.dist@[v] as int;
            let su = self.stamp@[u] as int;
            let sv = self.stamp@[v] as int;
            assert(self.dist@.contains_key(v) && self.dist@.contains_key(u));
            assert(su < c && sv < c);
            if du < dv {
                assert(du * c + su < dv * c + sv) by (nonlinear_arith)
                    requires du + 1 <= dv, 0 <= su < c, 0 <= sv, 0 <= du;
            }
        }
        assert(pred_ranked(self.pred@, rank));
    }

    /// Following predecessor links from the origin gives a walk that costs
    /// at most the distance of its end.
    pub proof fn lemma_links_walk<G: Graph>(self, g: &G, n: nat, mc: nat, pending: Option<usize>, path: Seq<usize>)
        requires
            self.wf(g, n, mc, pending),
            path.len() >= 1,
            path[0] == self.origin,
            forall|i: int| 1 <= i < path.len() ==> #[trigger] pred_link(self.pred@, path, i),
            self.dist@.contains_key(path.last()),
        ensures
            exists|w: Seq<Neighbour>|
                #[trigger] walk_to(g, self.forward, self.origin, w, path.last()) && walk_cost(w) <= self.dist@[path.last()]
                    && walk_nodes(self.origin, w) == path,
        decreases path.len(),
    {
        let origin = self.origin;
        if path.len() == 1 {
            let w = Seq::<Neighbour>::empty();
            lemma_walk_empty(g, self.forward, origin);
            assert(walk_nodes(origin, w) =~= path);
            assert(walk_to(g, self.forward, origin, w, path.last()));
        } else {
            let p0 = path.drop_last();
            let last = path.last();
            let prev = p0.last();
            assert(path[path.len() - 2] == prev);
            assert(pred_link(self.pred@, path, path.len() - 1));
            assert(self.pred@.contains_key(last));
            assert forall|i: int| 1 <= i < p0.len() implies #[trigger] pred_link(self.pred@, p0, i) by {
                assert(pred_link(self.pred@, path, i));
            }
            self.lemma_links_walk(g, n, mc, pending, p0);
            let w0 = choose|w: Seq<Neighbour>|
                #[trigger] walk_to(g, self.forward, origin, w, p0.last()) && walk_cost(w) <= self.dist@[p0.last()]
                    && walk_nodes(origin, w) == p0;
            let nb = Neighbour { edge_node_idx: last, cost: self.via@[last] };
            lemma_walk_push(g, self.forward, origin, w0, nb);
            assert(walk_nodes(origin, w0.push(nb)) =~= path);
            assert(walk_to(g, self.forward, origin, w0.push(nb), last));
        }
    }
}

impl Guided {
    /// Following the successors of a backward search from `from` gives a
    /// forward walk to the backward origin that costs at most the backward
    /// distance of `from`.
    pub proof fn lemma_succ_walk<G: Graph>(self, g: &G, n: nat, mc: nat, pending: Option<usize>, from: usize, s: Seq<usize>)
        requires
            self.wf(g, n, mc, pending),
            !self.forward,
            reverse_consistent(g),
            self.dist@.contains_key(from),
            is_succ_chain(self.pred@, from, self.origin, s),
        ensures
            exists|w: Seq<Neighbour>|
                #[trigger] walk_to(g, true, from, w, self.origin) && walk_cost(w) <= self.dist@[from]
                    && walk_nodes(from, w) == seq![from] + s,
        decreases s.len(),
    {
        let goal = self.origin;
        if s.len() == 0 {
            assert(from == goal);
            let w = Seq::<Neighbour>::empty();
            lemma_walk_empty(g, true, from);
            assert(walk_nodes(from, w) =~= seq![from] + s);
            assert(walk_to(g, true, from, w, goal));
        } else {
            let y = s[0];
            assert(self.pred@.contains_key(from) && self.pred@[from] == y);
            let c = self.via@[from];
            assert(g.inbound_spec(y).contains(Neighbour { edge_node_idx: from, cost: c }));
            assert(g.outbound_spec(from).contains(Neighbour { edge_node_idx: y, cost: c }));
            let rest = s.skip(1);
            assert(!self.pred@.contains_key(goal));
            if s.len() > 1 {
                assert(succ_link(self.pred@, s, 0));
                assert(rest[0] == s[1]);
                assert(rest.last() == s.last());
            } else {
                assert(s.last() == y);
                assert(rest.len() == 0);
            }
            assert forall|i: int| 0 <= i < rest.len() - 1 implies #[trigger] succ_link(self.pred@, rest, i) && rest[i] != goal by {
                assert(succ_link(self.pred@, s, i + 1));
                assert(rest[i] == s[i + 1] && rest[i + 1] == s[i + 2]);
            }
            assert(rest.len() == 0 <==> !self.pred@.contains_key(y));
            assert(rest.len() > 0 ==> rest[0] == self.pred@[y]);
            assert(rest.len() > 0 ==> (rest.last() == goal || !self.pred@.contains_key(rest.last())));
            assert(is_succ_chain(self.pred@, y, goal, rest));
            self.lemma_succ_walk(g, n, mc, pending, y, rest);
            let w1 = choose|w: Seq<Neighbour>|
                #[trigger] walk_to(g, true, y, w, goal) && walk_cost(w) <= self.dist@[y] && walk_nodes(y, w)
                    == seq![y] + rest;
            let nb = Neighbour { edge_node_idx: y, cost: c };
            let w0 = seq![nb];
            lemma_walk_push(g, true, from, Seq::<Neighbour>::empty(), nb);
            assert(Seq::<Neighbour>::empty().push(nb) =~= w0);
            lemma_walk_empty(g, true, from);
            lemma_walk_concat(g, true, from, w0, w1);
            lemma_walk_nodes_concat(from, w0, w1);
            assert(walk_nodes(from, w0) =~= seq![from, y]);
            assert(walk_nodes(from, w0 + w1) =~= seq![from] + s);
            assert(walk_to(g, true, from, w0 + w1, goal));
        }
    }
}

/// One of the queue entries sits on the walk `w`, at its node `j`, and
/// costs no more than the first `j` steps of the walk.
pub open spec fn entry_on_walk(s: Guided, w: Seq<Neighbour>, j: int, k: int) -> bool {
    &&& 0 <= j <= w.len()
    &&& 0 <= k < s.heap@.len()
    &&& s.heap@[k].position == node_at(s.origin, w, j)
    &&& s.heap@[k].cost <= walk_cost(w.take(j))
}

/// Along a walk from the origin whose nodes all have estimates, either some
/// queue entry sits on the walk no higher than the walk up to it, or the end
/// was expanded at a distance no higher than the walk's cost.
pub proof fn lemma_guided_frontier<G: Graph>(s: Guided, g: &G, n: nat, mc: nat, w: Seq<Neighbour>)
    requires
        s.wf(g, n, mc, None),
        is_walk(g, s.forward, s.origin, w),
        forall|j: int| 0 <= j <= w.len() ==> #[trigger] estimate(g, s.forward, s.aim, node_at(s.origin, w, j)) is Some,
    ensures
        (exists|j: int, k: int| #[trigger] entry_on_walk(s, w, j, k)) || (s.expanded@.contains(walk_end(s.origin, w))
            && s.exp@[walk_end(s.origin, w)] <= walk_cost(w)),
    decreases w.len(),
{
    let v = walk_end(s.origin, w);
    assert(estimate(g, s.forward, s.aim, node_at(s.origin, w, w.len() as int)) is Some);
    if w.len() == 0 {
        if !(s.expanded@.contains(v) && s.exp@[v] == s.dist@[v]) {
            assert(s.queued(v));
            let k = choose|k: int| 0 <= k < s.heap@.len() && #[trigger] s.heap@[k].position == v && s.heap@[k].cost == s.dist@[v];
            assert(w.take(0) =~= w);
            assert(entry_on_walk(s, w, 0, k));
        }
    } else {
        let w0 = w.drop_last();
        let nb = w.last();
        let l = w.len() as int;
        lemma_walk_split(g, s.forward, s.origin, w, l - 1);
        assert(w.take(l - 1) =~= w0);
        assert forall|j: int| 0 <= j <= w0.len() implies #[trigger] estimate(g, s.forward, s.aim, node_at(s.origin, w0, j)) is Some by {
            assert(node_at(s.origin, w0, j) == node_at(s.origin, w, j));
            assert(estimate(g, s.forward, s.aim, node_at(s.origin, w, j)) is Some);
        }
        lemma_guided_frontier(s, g, n, mc, w0);
        let x = walk_end(s.origin, w0);
        if exists|j: int, k: int| #[trigger] entry_on_walk(s, w0, j, k) {
            let (j, k) = choose|j: int, k: int| #[trigger] entry_on_walk(s, w0, j, k);
            assert(w.take(j) =~= w0.take(j));
            assert(node_at(s.origin, w0, j) == node_at(s.origin, w, j));
            assert(entry_on_walk(s, w, j, k));
        } else {
            assert(s.expanded@.contains(x) && s.exp@[x] <= walk_cost(w0));
            assert(step_ok(g, s.forward, s.origin, w, l - 1));
            assert(node_at(s.origin, w, l - 1) == x);
            let i = choose|i: int| 0 <= i < adj(g, s.forward, x).len() && adj(g, s.forward, x)[i] == nb;
            assert(s.relaxed(g, x, i));
            assert(walk_cost(w) == walk_cost(w0) + nb.cost);
            assert(s.dist@.contains_key(v) && s.dist@[v] <= walk_cost(w));
            if !(s.expanded@.contains(v) && s.exp@[v] == s.dist@[v]) {
                assert(s.queued(v));
                let k = choose|k: int| 0 <= k < s.heap@.len() && #[trigger] s.heap@[k].position == v && s.heap@[k].cost == s.dist@[v];
                assert(w.take(l) =~= w);
                assert(entry_on_walk(s, w, l, k));
            }
        }
    }
}

} // verus!
