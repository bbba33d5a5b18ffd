//! One direction of a Dijkstra search: tentative distances, predecessor
//! links and the queue, with the invariants that make the settled distances
//! shortest.

use std::collections::HashMap;
use vstd::prelude::*;

use super::queue::{
    distance_of, goes_first, lemma_keys_len, lemma_potential_improve, lemma_removed, pop_best,
    potential, removed, HeapEntry,
};
use super::walk::{
    adj, bounded, is_walk, lemma_reaches_push, lemma_walk_empty, lemma_walk_push, lower_bound,
    node_bounded, node_at, pred_ranked, reaches, step_ok, tree_ok, walk_cost, walk_end, walk_to,
};
use super::{Graph, Neighbour};

verus! {

broadcast use vstd::std_specs::hash::group_hash_axioms;

/// The state of a search from `origin` in one direction.
///
/// `settled` holds the nodes whose distance is final, `stamp` the time of the
/// last change of each distance, and `floor` the distance of the node settled
/// last.  Edges that would reach past `limit` are not followed.
pub struct Search {
    pub dist: HashMap<usize, usize>,
    pub pred: HashMap<usize, usize>,
    pub heap: Vec<HeapEntry>,
    pub origin: usize,
    pub forward: bool,
    pub limit: usize,
    pub settled: Ghost<Set<usize>>,
    pub stamp: Ghost<Map<usize, nat>>,
    pub clock: Ghost<nat>,
    pub floor: Ghost<nat>,
}

impl Search {
    /// The distance map holds the origin at zero and only nodes below `n`,
    /// and every other node it holds has a predecessor.
    pub open spec fn maps_ok(self, n: nat) -> bool {
        &&& self.dist@.dom().finite()
        &&& self.dist@.contains_key(self.origin)
        &&& self.dist@[self.origin] == 0
        &&& forall|v: usize| #[trigger]
            self.dist@.contains_key(v) ==> v < n && self.dist@[v] <= self.limit
        &&& forall|v: usize| #[trigger]
            self.pred@.contains_key(v) <==> (self.dist@.contains_key(v) && v != self.origin)
        &&& forall|v: usize| #[trigger] self.settled@.contains(v) ==> self.dist@.contains_key(v)
        &&& forall|v: usize| #[trigger]
            self.dist@.contains_key(v) ==> self.stamp@.contains_key(v) && self.stamp@[v]
                < self.clock@
    }

    /// Every predecessor link is an edge from a settled node whose cost is the
    /// difference of the two distances; a link between equal distances goes
    /// from an earlier change to a later one.
    pub open spec fn links_ok<G: Graph>(self, g: &G) -> bool {
        forall|v: usize| #[trigger]
            self.pred@.contains_key(v) ==> {
                let u = self.pred@[v];
                &&& self.settled@.contains(u)
                &&& self.dist@.contains_key(u)
                &&& self.dist@[u] <= self.dist@[v]
                &&& adj(g, self.forward, u).contains(
                    Neighbour { edge_node_idx: v, cost: (self.dist@[v] - self.dist@[u]) as usize },
                )
                &&& self.dist@[u] == self.dist@[v] ==> self.stamp@[u] < self.stamp@[v]
            }
    }

    /// Every distance is the cost of a walk from the origin.
    pub open spec fn sound<G: Graph>(self, g: &G) -> bool {
        forall|v: usize| #[trigger]
            self.dist@.contains_key(v) ==> reaches(
                g,
                self.forward,
                self.origin,
                v,
                self.dist@[v] as nat,
            )
    }

    /// No walk reaches a settled node for less than its distance.
    pub open spec fn optimal<G: Graph>(self, g: &G) -> bool {
        forall|v: usize| #[trigger]
            self.settled@.contains(v) ==> lower_bound(
                g,
                self.forward,
                self.origin,
                v,
                self.dist@[v] as nat,
            )
    }

    /// Edge `i` of `u` has been relaxed: its target has a distance no
    /// higher than through `u`, unless that would pass the limit.
    pub open spec fn relaxed<G: Graph>(self, g: &G, u: usize, i: int) -> bool {
        let nb = adj(g, self.forward, u)[i];
        self.dist@[u] + nb.cost <= self.limit ==> self.dist@.contains_key(nb.edge_node_idx)
            && self.dist@[nb.edge_node_idx] <= self.dist@[u] + nb.cost
    }

    /// The edges of every settled node but `pending` have been relaxed.
    pub open spec fn closed<G: Graph>(self, g: &G, pending: Option<usize>) -> bool {
        forall|u: usize, i: int|
            #![trigger self.settled@.contains(u), adj(g, self.forward, u)[i]]
            self.settled@.contains(u) && pending != Some(u) && 0 <= i < adj(
                g,
                self.forward,
                u,
            ).len() ==> self.relaxed(g, u, i)
    }

    /// A queue entry names a node with a distance, costs no less than that
    /// distance nor than the floor, and only names a settled node at a cost
    /// above its distance.
    pub open spec fn entry_ok(self, e: HeapEntry) -> bool {
        &&& e.priority == e.cost
        &&& self.dist@.contains_key(e.position)
        &&& self.dist@[e.position] <= e.cost
        &&& self.floor@ <= e.cost
        &&& e.cost <= self.limit
        &&& e.cost == self.dist@[e.position] ==> !self.settled@.contains(e.position)
    }

    /// The queue entries are valid, and entries of one node have distinct costs.
    pub open spec fn heap_ok(self) -> bool {
        &&& forall|k: int| 0 <= k < self.heap@.len() ==> self.entry_ok(#[trigger] self.heap@[k])
        &&& forall|k1: int, k2: int|
            #![trigger self.heap@[k1], self.heap@[k2]]
            0 <= k1 < self.heap@.len() && 0 <= k2 < self.heap@.len() && k1 != k2
                && self.heap@[k1].position == self.heap@[k2].position ==> self.heap@[k1].cost
                != self.heap@[k2].cost
    }

    /// The queue holds an entry for `v` at its current distance.
    pub open spec fn queued(self, v: usize) -> bool {
        exists|k: int|
            0 <= k < self.heap@.len() && #[trigger] self.heap@[k].position == v && self.heap@[k].cost
                == self.dist@[v]
    }

    /// Every node with a distance that is not settled waits in the queue.
    pub open spec fn frontier(self) -> bool {
        forall|v: usize| #[trigger]
            self.dist@.contains_key(v) ==> self.settled@.contains(v) || self.queued(v)
    }

    /// Settled distances are at most the floor, and each distance is at most
    /// `mc` times one less than the number of nodes with a distance.
    pub open spec fn bounds_ok(self, mc: nat) -> bool {
        &&& forall|v: usize| #[trigger]
            self.settled@.contains(v) ==> self.dist@[v] <= self.floor@
        &&& forall|v: usize| #[trigger]
            self.dist@.contains_key(v) ==> self.dist@[v] + mc <= mc * self.dist@.dom().len()
    }

    /// All invariants; `pending` is the settled node whose edges are being relaxed.
    pub open spec fn wf<G: Graph>(self, g: &G, n: nat, mc: nat, pending: Option<usize>) -> bool {
        &&& self.maps_ok(n)
        &&& self.links_ok(g)
        &&& self.sound(g)
        &&& self.optimal(g)
        &&& self.closed(g, pending)
        &&& self.heap_ok()
        &&& self.frontier()
        &&& self.bounds_ok(mc)
        &&& pending matches Some(u) ==> self.settled@.contains(u) && self.dist@[u] == self.floor@
    }

    /// The fields that searching never changes.
    pub open spec fn same_setup(self, other: Search) -> bool {
        self.origin == other.origin && self.forward == other.forward && self.limit == other.limit
    }

    /// A search that has only reached its origin.
    pub fn new<G: Graph>(g: &G, origin: usize, forward: bool, limit: usize, Ghost(n): Ghost<nat>, Ghost(mc): Ghost<nat>) -> (s: Search)
        requires
            origin < n,
            bounded(g, n, mc),
        ensures
            s.wf(g, n, mc, None),
            s.origin == origin,
            s.forward == forward,
            s.limit == limit,
            s.dist@ == map![origin => 0usize],
            s.pred@ == Map::<usize, usize>::empty(),
            s.settled@ == Set::<usize>::empty(),
            s.heap@.len() == 1,
    {
        let mut dist: HashMap<usize, usize> = HashMap::new();
        dist.insert(origin, 0);
        let pred: HashMap<usize, usize> = HashMap::new();
        let mut heap: Vec<HeapEntry> = Vec::new();
        heap.push(HeapEntry { priority: 0, cost: 0, position: origin });
        let s = Search {
            dist,
            pred,
            heap,
            origin,
            forward,
            limit,
            settled: Ghost(Set::empty()),
            stamp: Ghost(Map::<usize, nat>::empty().insert(origin, 0nat)),
            clock: Ghost(1),
            floor: Ghost(0),
        };
        proof {
            assert(s.dist@ =~= map![origin => 0usize]);
            lemma_walk_empty(g, forward, origin);
            assert(s.dist@.dom() =~= set![origin]);
            assert(s.dist@.dom().len() == 1);
            assert(mc * 1 == mc) by (nonlinear_arith);
            assert(s.heap@[0].position == origin);
            assert(s.queued(origin));
        }
        s
    }

    /// Takes the first entry out of the queue.  A fresh entry, at the
    /// distance of its node, settles the node and is returned as
    /// `(node, distance)`; a stale one is dropped and gives `None`.
    pub fn pop<G: Graph>(&mut self, g: &G, Ghost(n): Ghost<nat>, Ghost(mc): Ghost<nat>) -> (r: Option<(usize, usize)>)
        requires
            old(self).wf(g, n, mc, None),
            old(self).heap@.len() > 0,
            bounded(g, n, mc),
        ensures
            final(self).same_setup(*old(self)),
            final(self).dist@ == old(self).dist@,
            final(self).pred@ == old(self).pred@,
            final(self).heap@.len() == old(self).heap@.len() - 1,
            forall|k: int| 0 <= k < final(self).heap@.len() ==> exists|j: int| 0 <= j < old(self).heap@.len() && #[trigger] final(self).heap@[k] == old(self).heap@[j],
            match r {
                None => final(self).wf(g, n, mc, None) && final(self).settled@ == old(self).settled@,
                Some((u, d)) => {
                    &&& final(self).wf(g, n, mc, Some(u))
                    &&& final(self).settled@ == old(self).settled@.insert(u)
                    &&& !old(self).settled@.contains(u)
                    &&& old(self).dist@.contains_key(u)
                    &&& d == old(self).dist@[u]
                    &&& forall|k: int| 0 <= k < old(self).heap@.len() ==> d <= #[trigger] old(self).heap@[k].priority
                },
            },
    {
        let ghost s0 = *self;
        let (e, Ghost(i)) = pop_best(&mut self.heap);
        proof {
            lemma_removed(s0.heap@, i);
            assert(s0.entry_ok(s0.heap@[i]));
        }
        let cur = match distance_of(&self.dist, e.position) {
            Some(d) => d,
            None => usize::MAX,
        };
        if e.cost > cur {
            proof {
                // Every entry left was in the queue before; the dropped one
                // was not the entry that keeps its node queued.
                assert forall|k: int| 0 <= k < self.heap@.len() implies #[trigger] self.entry_ok(self.heap@[k]) by {
                    let j = if k == i { s0.heap@.len() - 1 } else { k };
                    assert(s0.entry_ok(s0.heap@[j]));
                }
                assert forall|k1: int, k2: int|
                    0 <= k1 < self.heap@.len() && 0 <= k2 < self.heap@.len() && k1 != k2
                    && self.heap@[k1].position == self.heap@[k2].position implies #[trigger] self.heap@[k1].cost != #[trigger] self.heap@[k2].cost by {
                    let j1 = if k1 == i { s0.heap@.len() - 1 } else { k1 };
                    let j2 = if k2 == i { s0.heap@.len() - 1 } else { k2 };
                    assert(s0.heap@[j1] == self.heap@[k1]);
                    assert(s0.heap@[j2] == self.heap@[k2]);
                }
                assert forall|v: usize| #[trigger] self.dist@.contains_key(v) implies self.settled@.contains(v) || self.queued(v) by {
                    if !self.settled@.contains(v) {
                        assert(s0.queued(v));
                        let k = choose|k: int| 0 <= k < s0.heap@.len() && #[trigger] s0.heap@[k].position == v && s0.heap@[k].cost == s0.dist@[v];
                        assert(k != i);
                        let k2 = if k == s0.heap@.len() - 1 { i } else { k };
                        assert(self.heap@[k2] == s0.heap@[k]);
                    }
                }
                assert forall|k: int| 0 <= k < self.heap@.len() implies exists|j: int| 0 <= j < s0.heap@.len() && #[trigger] self.heap@[k] == s0.heap@[j] by {
                    let j = if k == i { s0.heap@.len() - 1 } else { k };
                    assert(self.heap@[k] == s0.heap@[j]);
                }
            }
            return None;
        }
        let u = e.position;
        let d = e.cost;
        proof {
            let s1 = *self;
            // The popped node is not settled yet, and every walk to it costs
            // at least `d`: the frontier of the earlier state has an entry on
            // the way, and none goes before the popped one.
            assert(d == s0.dist@[u]);
            assert(!s0.settled@.contains(u));
            assert forall|w: Seq<Neighbour>| #[trigger] walk_to(g, s0.forward, s0.origin, w, u) implies d <= walk_cost(w) by {
                if walk_cost(w) > s0.limit && s0.limit != usize::MAX {
                    assert(s0.entry_ok(s0.heap@[i]));
                } else {
                lemma_frontier(s0, g, n, mc, w);
                if !s0.settled@.contains(walk_end(s0.origin, w)) {
                    let k = choose|k: int| 0 <= k < s0.heap@.len() && #[trigger] s0.heap@[k].cost <= walk_cost(w);
                    assert(goes_first(e, s0.heap@[k]));
                    assert(s0.entry_ok(s0.heap@[k]));
                }
                }
            }
            self.settled@ = s0.settled@.insert(u);
            self.floor@ = d as nat;
            assert forall|k: int| 0 <= k < self.heap@.len() implies #[trigger] self.entry_ok(self.heap@[k]) by {
                let j = if k == i { s0.heap@.len() - 1 } else { k };
                assert(s0.entry_ok(s0.heap@[j]));
                assert(goes_first(e, s0.heap@[j]));
                assert(self.heap@[k] == s0.heap@[j]);
                if self.heap@[k].position == u {
                    assert(s0.heap@[i] != s0.heap@[j] || j == i);
                }
            }
            assert forall|k1: int, k2: int|
                0 <= k1 < self.heap@.len() && 0 <= k2 < self.heap@.len() && k1 != k2
                && self.heap@[k1].position == self.heap@[k2].position implies #[trigger] self.heap@[k1].cost != #[trigger] self.heap@[k2].cost by {
                let j1 = if k1 == i { s0.heap@.len() - 1 } else { k1 };
                let j2 = if k2 == i { s0.heap@.len() - 1 } else { k2 };
                assert(s0.heap@[j1] == self.heap@[k1]);
                assert(s0.heap@[j2] == self.heap@[k2]);
            }
            assert forall|v: usize| #[trigger] self.dist@.contains_key(v) implies self.settled@.contains(v) || self.queued(v) by {
                if !self.settled@.contains(v) {
                    assert(s0.queued(v));
                    let k = choose|k: int| 0 <= k < s0.heap@.len() && #[trigger] s0.heap@[k].position == v && s0.heap@[k].cost == s0.dist@[v];
                    assert(k != i);
                    let k2 = if k == s0.heap@.len() - 1 { i } else { k };
                    assert(self.heap@[k2] == s0.heap@[k]);
                }
            }
            assert forall|v: usize| #[trigger] self.settled@.contains(v) implies self.dist@[v] <= self.floor@ by {
                if v != u {
                    assert(s0.settled@.contains(v));
                    assert(s0.entry_ok(s0.heap@[i]));
                }
            }
            assert forall|v: usize| #[trigger] self.settled@.contains(v) implies lower_bound(g, self.forward, self.origin, v, self.dist@[v] as nat) by {
                if v != u {
                    assert(s0.settled@.contains(v));
                }
            }
            assert forall|v: usize| #[trigger] self.pred@.contains_key(v) implies self.settled@.contains(self.pred@[v]) by {
                assert(s0.pred@.contains_key(v));
            }
            assert forall|uu: usize, ii: int|
                #![trigger self.settled@.contains(uu), adj(g, self.forward, uu)[ii]]
                self.settled@.contains(uu) && Some(u) != Some(uu) && 0 <= ii < adj(g, self.forward, uu).len() implies self.relaxed(g, uu, ii) by {
                assert(s0.settled@.contains(uu));
                assert(s0.relaxed(g, uu, ii));
            }
            assert forall|k: int| 0 <= k < self.heap@.len() implies exists|j: int| 0 <= j < s0.heap@.len() && #[trigger] self.heap@[k] == s0.heap@[j] by {
                let j = if k == i { s0.heap@.len() - 1 } else { k };
                assert(self.heap@[k] == s0.heap@[j]);
            }
            assert forall|k: int| 0 <= k < s0.heap@.len() implies d <= #[trigger] s0.heap@[k].priority by {
                assert(goes_first(e, s0.heap@[k]));
            }
        }
        Some((u, d))
    }

    /// Relaxes the edges of the settled node `u` at distance `d`, in their
    /// order: an edge that reaches its target within the limit and for less
    /// than the target's distance gives the target that distance and `u` as
    /// predecessor, and queues it.  Returns these changes in order, as
    /// (node, new distance).
    pub fn relax<G: Graph>(&mut self, g: &G, u: usize, d: usize, Ghost(n): Ghost<nat>, Ghost(mc): Ghost<nat>) -> (changes: Vec<(usize, usize)>)
        requires
            old(self).wf(g, n, mc, Some(u)),
            old(self).dist@.contains_key(u),
            old(self).dist@[u] == d,
            bounded(g, n, mc),
        ensures
            final(self).wf(g, n, mc, None),
            final(self).same_setup(*old(self)),
            final(self).settled@ == old(self).settled@,
            potential(final(self).dist@, n) <= potential(old(self).dist@, n),
            potential(final(self).dist@, n) == potential(old(self).dist@, n) ==> final(self).heap@.len()
                == old(self).heap@.len(),
            forall|v: usize| #[trigger]
                old(self).dist@.contains_key(v) ==> final(self).dist@.contains_key(v)
                    && final(self).dist@[v] <= old(self).dist@[v],
            forall|v: usize| #[trigger]
                final(self).dist@.contains_key(v) && (!old(self).dist@.contains_key(v)
                    || final(self).dist@[v] != old(self).dist@[v]) ==> exists|j: int|
                    0 <= j < changes.len() && #[trigger] changes@[j] == (v, final(self).dist@[v]),
            forall|j: int|
                0 <= j < changes.len() ==> final(self).dist@.contains_key(#[trigger] changes@[j].0)
                    && final(self).dist@[changes@[j].0] <= changes@[j].1,
    {
        let ghost s0 = *self;
        proof {
            assert(s0.dist@.contains_key(u));
            assert(node_bounded(g, u, n, mc));
        }
        let nbs = if self.forward {
            g.outbound(u)
        } else {
            g.inbound(u)
        };
        let mut changes: Vec<(usize, usize)> = Vec::new();
        let mut j: usize = 0;
        while j < nbs.len()
            invariant
                bounded(g, n, mc),
                u < n,
                node_bounded(g, u, n, mc),
                nbs@ == adj(g, s0.forward, u),
                0 <= j <= nbs.len(),
                self.same_setup(s0),
                self.settled@ == s0.settled@,
                self.floor@ == s0.floor@,
                self.dist@.contains_key(u),
                self.dist@[u] == d,
                self.wf(g, n, mc, Some(u)),
                forall|i: int| 0 <= i < j ==> self.relaxed(g, u, i),
                potential(self.dist@, n) <= potential(s0.dist@, n),
                potential(self.dist@, n) == potential(s0.dist@, n) ==> self.heap@.len() == s0.heap@.len(),
                forall|v: usize| #[trigger]
                    s0.dist@.contains_key(v) ==> self.dist@.contains_key(v) && self.dist@[v] <= s0.dist@[v],
                forall|v: usize| #[trigger]
                    self.dist@.contains_key(v) && (!s0.dist@.contains_key(v) || self.dist@[v] != s0.dist@[v])
                        ==> exists|k: int| 0 <= k < changes.len() && #[trigger] changes@[k] == (v, self.dist@[v]),
                forall|k: int|
                    0 <= k < changes.len() ==> self.dist@.contains_key(#[trigger] changes@[k].0)
                        && self.dist@[changes@[k].0] <= changes@[k].1,
            decreases nbs.len() - j,
        {
            let nb = nbs[j];
            let v = nb.edge_node_idx;
            proof {
                assert(nbs@[j as int] == nb);
                assert(nb.cost <= mc && v < n);
                lemma_keys_len(self.dist@, n);
                assert(mc * self.dist@.dom().len() <= n * mc) by (nonlinear_arith)
                    requires self.dist@.dom().len() <= n;
            }
            let next = d + nb.cost;
            if next <= self.limit {
                let better = match distance_of(&self.dist, v) {
                    Some(old_d) => next < old_d,
                    None => true,
                };
                if better {
                    let ghost s1 = *self;
                    let ghost cl = s1.clock@;
                    let ghost ch0 = changes@;
                    self.dist.insert(v, next);
                    self.pred.insert(v, u);
                    self.heap.push(HeapEntry { priority: next, cost: next, position: v });
                    changes.push((v, next));
                    proof {
                        self.stamp@ = s1.stamp@.insert(v, cl);
                        self.clock@ = cl + 1;
                        self.relax_step_facts(s1, g, n, mc, u, d, j as int, nb);
                        assert forall|x: usize| #[trigger]
                            self.dist@.contains_key(x) && (!s0.dist@.contains_key(x) || self.dist@[x] != s0.dist@[x])
                            implies exists|k: int| 0 <= k < changes.len() && #[trigger] changes@[k] == (x, self.dist@[x]) by {
                            if x == v {
                                assert(changes@[ch0.len() as int] == (x, self.dist@[x]));
                            } else {
                                assert(s1.dist@.contains_key(x));
                                let k = choose|k: int| 0 <= k < ch0.len() && #[trigger] ch0[k] == (x, s1.dist@[x]);
                                assert(changes@[k] == ch0[k]);
                            }
                        }
                    }
                }
            }
            j = j + 1;
        }
        changes
    }

    /// What one lowering of a distance during `relax` keeps.
    proof fn relax_step_facts<G: Graph>(self, s1: Search, g: &G, n: nat, mc: nat, u: usize, d: usize, j: int, nb: Neighbour)
        requires
            bounded(g, n, mc),
            s1.wf(g, n, mc, Some(u)),
            s1.dist@.contains_key(u),
            s1.dist@[u] == d,
            u < n,
            node_bounded(g, u, n, mc),
            0 <= j < adj(g, s1.forward, u).len(),
            adj(g, s1.forward, u)[j] == nb,
            d + nb.cost <= s1.limit,
            !s1.dist@.contains_key(nb.edge_node_idx) || d + nb.cost < s1.dist@[nb.edge_node_idx],
            self.same_setup(s1),
            self.settled@ == s1.settled@,
            self.floor@ == s1.floor@,
            self.dist@ == s1.dist@.insert(nb.edge_node_idx, (d + nb.cost) as usize),
            self.pred@ == s1.pred@.insert(nb.edge_node_idx, u),
            self.heap@ == s1.heap@.push(HeapEntry { priority: (d + nb.cost) as usize, cost: (d + nb.cost) as usize, position: nb.edge_node_idx }),
            self.stamp@ == s1.stamp@.insert(nb.edge_node_idx, s1.clock@),
            self.clock@ == s1.clock@ + 1,
        ensures
            self.wf(g, n, mc, Some(u)),
            forall|i: int| 0 <= i < adj(g, s1.forward, u).len() && s1.relaxed(g, u, i) ==> self.relaxed(g, u, i),
            self.relaxed(g, u, j),
            potential(self.dist@, n) < potential(s1.dist@, n),
            forall|x: usize| #[trigger] s1.dist@.contains_key(x) ==> self.dist@.contains_key(x) && self.dist@[x] <= s1.dist@[x],
    {
        let v = nb.edge_node_idx;
        let next = (d + nb.cost) as usize;
        assert(v < n) by {
            assert(nbrs_bounded_at(adj(g, s1.forward, u), j, n, mc));
        }
        assert(nb.cost <= mc) by {
            assert(nbrs_bounded_at(adj(g, s1.forward, u), j, n, mc));
        }
        assert(!s1.settled@.contains(v)) by {
            if s1.settled@.contains(v) {
                assert(s1.dist@.contains_key(v));
            }
        }
        assert(v != s1.origin);
        assert(v != u);
        lemma_potential_improve(s1.dist@, v, next, n);
        lemma_keys_len(s1.dist@, n);
        // maps
        assert(self.dist@.dom() == s1.dist@.dom().insert(v));
        assert forall|x: usize| #[trigger] self.dist@.contains_key(x) implies x < n && self.dist@[x] <= self.limit by {
            if x != v {
                assert(s1.dist@.contains_key(x));
            }
        }
        assert forall|x: usize| #[trigger] self.pred@.contains_key(x) <==> (self.dist@.contains_key(x) && x != self.origin) by {
            if x != v {
                assert(s1.pred@.contains_key(x) <==> (s1.dist@.contains_key(x) && x != s1.origin));
            }
        }
        assert forall|x: usize| #[trigger] self.settled@.contains(x) implies self.dist@.contains_key(x) by {
            assert(s1.dist@.contains_key(x));
        }
        assert forall|x: usize| #[trigger] self.dist@.contains_key(x) implies self.stamp@.contains_key(x) && self.stamp@[x] < self.clock@ by {
            if x != v {
                assert(s1.dist@.contains_key(x));
            }
        }
        // links
        assert(adj(g, self.forward, u).contains(Neighbour { edge_node_idx: v, cost: (next - d) as usize })) by {
            assert(adj(g, self.forward, u)[j] == Neighbour { edge_node_idx: v, cost: (next - d) as usize });
        }
        assert(s1.dist@.contains_key(u));
        assert forall|x: usize| #[trigger] self.pred@.contains_key(x) implies {
            let y = self.pred@[x];
            &&& self.settled@.contains(y)
            &&& self.dist@.contains_key(y)
            &&& self.dist@[y] <= self.dist@[x]
            &&& adj(g, self.forward, y).contains(Neighbour { edge_node_idx: x, cost: (self.dist@[x] - self.dist@[y]) as usize })
            &&& self.dist@[y] == self.dist@[x] ==> self.stamp@[y] < self.stamp@[x]
        } by {
            if x != v {
                assert(s1.pred@.contains_key(x));
                let y = s1.pred@[x];
                assert(s1.settled@.contains(y));
                assert(y != v);
            }
        }
        // soundness and optimality
        assert(s1.sound(g));
        lemma_reaches_push(g, s1.forward, s1.origin, u, d as nat, nb);
        assert forall|x: usize| #[trigger] self.dist@.contains_key(x) implies reaches(g, self.forward, self.origin, x, self.dist@[x] as nat) by {
            if x != v {
                assert(s1.dist@.contains_key(x));
            }
        }
        assert forall|x: usize| #[trigger] self.settled@.contains(x) implies lower_bound(g, self.forward, self.origin, x, self.dist@[x] as nat) by {
            assert(s1.settled@.contains(x));
        }
        // closure
        assert forall|uu: usize, ii: int|
            #![trigger self.settled@.contains(uu), adj(g, self.forward, uu)[ii]]
            self.settled@.contains(uu) && Some(u) != Some(uu) && 0 <= ii < adj(g, self.forward, uu).len() implies self.relaxed(g, uu, ii) by {
            assert(s1.settled@.contains(uu));
            assert(s1.relaxed(g, uu, ii));
            assert(s1.dist@.contains_key(uu));
        }
        assert forall|i: int| 0 <= i < adj(g, s1.forward, u).len() && s1.relaxed(g, u, i) implies self.relaxed(g, u, i) by {
            let t = adj(g, s1.forward, u)[i].edge_node_idx;
            if s1.dist@.contains_key(t) {
                assert(self.dist@.contains_key(t));
            }
        }
        // queue
        let h = self.heap@;
        let last = h.len() - 1;
        assert forall|k: int| 0 <= k < h.len() implies #[trigger] self.entry_ok(h[k]) by {
            if k < last {
                assert(s1.entry_ok(s1.heap@[k]));
                assert(h[k] == s1.heap@[k]);
            }
        }
        assert forall|k1: int, k2: int|
            #![trigger h[k1], h[k2]]
            0 <= k1 < h.len() && 0 <= k2 < h.len() && k1 != k2 && h[k1].position == h[k2].position implies h[k1].cost != h[k2].cost by {
            if k1 < last {
                assert(s1.entry_ok(s1.heap@[k1]));
            }
            if k2 < last {
                assert(s1.entry_ok(s1.heap@[k2]));
            }
            if k1 < last && k2 < last {
                assert(s1.heap@[k1] == h[k1] && s1.heap@[k2] == h[k2]);
            }
        }
        assert(self.heap_ok());
        assert forall|x: usize| #[trigger] self.dist@.contains_key(x) implies self.settled@.contains(x) || self.queued(x) by {
            if x == v {
                assert(h[last].position == v);
            } else if !self.settled@.contains(x) {
                assert(s1.dist@.contains_key(x));
                assert(s1.queued(x));
                let k = choose|k: int| 0 <= k < s1.heap@.len() && #[trigger] s1.heap@[k].position == x && s1.heap@[k].cost == s1.dist@[x];
                assert(h[k] == s1.heap@[k]);
            }
        }
        // bounds
        assert(s1.dist@[u] + mc <= mc * s1.dist@.dom().len());
        assert forall|x: usize| #[trigger] self.settled@.contains(x) implies self.dist@[x] <= self.floor@ by {
            assert(s1.settled@.contains(x));
        }
        let l0 = s1.dist@.dom().len();
        let l1 = self.dist@.dom().len();
        if s1.dist@.contains_key(v) {
            assert(s1.dist@.dom().insert(v) =~= s1.dist@.dom());
        }
        assert(l0 <= l1 <= l0 + 1);
        assert(mc * l0 <= mc * l1) by (nonlinear_arith)
            requires l0 <= l1;
        assert(!s1.dist@.contains_key(v) ==> l1 == l0 + 1);
        assert(mc * (l0 + 1) == mc * l0 + mc) by (nonlinear_arith);
        assert forall|x: usize| #[trigger] self.dist@.contains_key(x) implies self.dist@[x] + mc <= mc * l1 by {
            if x != v {
                assert(s1.dist@.contains_key(x));
            } else if s1.dist@.contains_key(v) {
                assert(s1.dist@[v] + mc <= mc * l0);
            }
        }
        assert forall|x: usize| #[trigger] s1.dist@.contains_key(x) implies self.dist@.contains_key(x) && self.dist@[x] <= s1.dist@[x] by {
        }
    }
}

impl Search {
    /// The distances and predecessor links of a valid search form its tree.
    pub proof fn lemma_tree<G: Graph>(self, g: &G, n: nat, mc: nat, pending: Option<usize>)
        requires
            self.wf(g, n, mc, pending),
        ensures
            tree_ok(g, self.forward, self.origin, self.dist@, self.pred@),
    {
        let c = self.clock@;
        let rank = Map::new(
            |v: usize| self.dist@.contains_key(v),
            |v: usize| (self.dist@[v] * c + self.stamp@[v]) as nat,
        );
        assert forall|v: usize| #[trigger] self.pred@.contains_key(v) implies rank.contains_key(v)
            && rank.contains_key(self.pred@[v]) && rank[self.pred@[v]] < rank[v] by {
            let u = self.pred@[v];
            let du = self.dist@[u] as int;
            let dv = self.dist@[v] as int;
            let su = self.stamp@[u] as int;
            let sv = self.stamp@[v] as int;
            assert(self.dist@.contains_key(v) && self.dist@.contains_key(u));
            assert(su < c && sv < c);
            if du < dv {
                assert(du * c + su < dv * c + sv) by (nonlinear_arith)
                    requires du + 1 <= dv, 0 <= su < c, 0 <= sv, 0 <= du;
            }
        }
        assert(pred_ranked(self.pred@, rank));
    }

    /// Following predecessors from a settled node only meets settled nodes,
    /// so the origin is settled as soon as any node is.
    pub proof fn lemma_origin_settled<G: Graph>(self, g: &G, n: nat, mc: nat, pending: Option<usize>, v: usize)
        requires
            self.wf(g, n, mc, pending),
            self.settled@.contains(v),
        ensures
            self.settled@.contains(self.origin),
        decreases self.dist@[v] * self.clock@ + self.stamp@[v],
    {
        if v != self.origin {
            let c = self.clock@;
            let u = self.pred@[v];
            assert(self.pred@.contains_key(v));
            let du = self.dist@[u] as int;
            let dv = self.dist@[v] as int;
            let su = self.stamp@[u] as int;
            let sv = self.stamp@[v] as int;
            assert(self.dist@.contains_key(v) && self.dist@.contains_key(u));
            assert(su < c && sv < c);
            if du < dv {
                assert(du * c + su < dv * c + sv) by (nonlinear_arith)
                    requires du + 1 <= dv, 0 <= su < c, 0 <= sv, 0 <= du;
            }
            self.lemma_origin_settled(g, n, mc, pending, u);
        }
    }

    /// Once the queue is empty every node with a distance is settled, and
    /// every walk within the limit ends at a node whose distance is at most
    /// its cost.
    pub proof fn lemma_done<G: Graph>(self, g: &G, n: nat, mc: nat)
        requires
            self.wf(g, n, mc, None),
            bounded(g, n, mc),
            self.heap@.len() == 0,
        ensures
            forall|v: usize| #[trigger] self.dist@.contains_key(v) ==> self.settled@.contains(v),
            forall|v: usize, w: Seq<Neighbour>|
                #[trigger] walk_to(g, self.forward, self.origin, w, v) && (walk_cost(w) <= self.limit
                    || self.limit == usize::MAX) ==> self.dist@.contains_key(v) && self.dist@[v]
                    <= walk_cost(w),
    {
        assert forall|v: usize| #[trigger] self.dist@.contains_key(v) implies self.settled@.contains(v) by {
            if !self.settled@.contains(v) {
                assert(self.queued(v));
            }
        }
        assert forall|v: usize, w: Seq<Neighbour>|
            #[trigger] walk_to(g, self.forward, self.origin, w, v) && (walk_cost(w) <= self.limit
                || self.limit == usize::MAX) implies self.dist@.contains_key(v) && self.dist@[v]
                <= walk_cost(w) by {
            lemma_frontier(self, g, n, mc, w);
        }
    }
}

/// Neighbour `i` of `s` is below `n` and costs at most `mc`.
pub open spec fn nbrs_bounded_at(s: Seq<Neighbour>, i: int, n: nat, mc: nat) -> bool {
    s[i].edge_node_idx < n && s[i].cost <= mc
}

/// Along any walk from the origin that stays within the limit, either the
/// end is settled no higher than the walk's cost, or the queue holds an
/// entry that costs no more than the walk.
pub proof fn lemma_frontier<G: Graph>(s: Search, g: &G, n: nat, mc: nat, w: Seq<Neighbour>)
    requires
        s.wf(g, n, mc, None),
        bounded(g, n, mc),
        is_walk(g, s.forward, s.origin, w),
        walk_cost(w) <= s.limit || s.limit == usize::MAX,
    ensures
        (s.settled@.contains(walk_end(s.origin, w)) && s.dist@[walk_end(s.origin, w)] <= walk_cost(w))
            || exists|k: int| 0 <= k < s.heap@.len() && #[trigger] s.heap@[k].cost <= walk_cost(w),
    decreases w.len(),
{
    let v = walk_end(s.origin, w);
    if w.len() == 0 {
        if !s.settled@.contains(v) {
            assert(s.queued(v));
            let k = choose|k: int| 0 <= k < s.heap@.len() && #[trigger] s.heap@[k].position == v && s.heap@[k].cost == s.dist@[v];
            assert(s.heap@[k].cost <= walk_cost(w));
        }
    } else {
        let w0 = w.drop_last();
        let nb = w.last();
        assert forall|i: int| 0 <= i < w0.len() implies #[trigger] step_ok(g, s.forward, s.origin, w0, i) by {
            assert(step_ok(g, s.forward, s.origin, w, i));
            assert(node_at(s.origin, w0, i) == node_at(s.origin, w, i));
        }
        assert(walk_cost(w) == walk_cost(w0) + nb.cost);
        lemma_frontier(s, g, n, mc, w0);
        let x = walk_end(s.origin, w0);
        if s.settled@.contains(x) && s.dist@[x] <= walk_cost(w0) {
            assert(step_ok(g, s.forward, s.origin, w, w.len() - 1));
            assert(node_at(s.origin, w, w.len() - 1) == x);
            let i = choose|i: int| 0 <= i < adj(g, s.forward, x).len() && adj(g, s.forward, x)[i] == nb;
            assert(s.relaxed(g, x, i));
            if s.limit == usize::MAX {
                assert(x < n);
                assert(node_bounded(g, x, n, mc));
                assert(nb.cost <= mc);
                lemma_keys_len(s.dist@, n);
                assert(s.dist@.contains_key(x));
                assert(mc * s.dist@.dom().len() <= n * mc) by (nonlinear_arith)
                    requires s.dist@.dom().len() <= n;
                assert(s.dist@[x] + nb.cost <= s.limit);
            }
            assert(s.dist@.contains_key(v));
            if !s.settled@.contains(v) {
                assert(s.queued(v));
                let k = choose|k: int| 0 <= k < s.heap@.len() && #[trigger] s.heap@[k].position == v && s.heap@[k].cost == s.dist@[v];
                assert(s.heap@[k].cost <= walk_cost(w));
            }
        } else {
            let k = choose|k: int| 0 <= k < s.heap@.len() && #[trigger] s.heap@[k].cost <= walk_cost(w0);
            assert(s.heap@[k].cost <= walk_cost(w));
        }
    }
}

} // verus!
