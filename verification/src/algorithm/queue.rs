//! The priority queue of the searches: a vector scanned for its first entry.

use std::collections::HashMap;
use vstd::prelude::*;

verus! {

/// An entry of the priority queue: `position` reached at `cost`, ordered by `priority`.
#[derive(Copy, Clone, Debug)]
pub struct HeapEntry {
    pub priority: usize,
    pub cost: usize,
    pub position: usize,
}

/// `a` leaves the queue no later than `b`: the lower priority first, and
/// among equal priorities the higher position.
pub open spec fn goes_first(a: HeapEntry, b: HeapEntry) -> bool {
    a.priority < b.priority || (a.priority == b.priority && a.position >= b.position)
}

/// `s` without its element `i`, the last element taking its place.
pub open spec fn removed<T>(s: Seq<T>, i: int) -> Seq<T> {
    s.update(i, s.last()).drop_last()
}

/// Where the elements of `s` stand after element `i` is removed.
pub proof fn lemma_removed<T>(s: Seq<T>, i: int)
    requires
        0 <= i < s.len(),
    ensures
        removed(s, i).len() == s.len() - 1,
        forall|j: int|
            0 <= j < s.len() - 1 ==> #[trigger] removed(s, i)[j] == s[if j == i { s.len() - 1 } else { j }],
        forall|k: int|
            0 <= k < s.len() && k != i ==> removed(s, i)[if k == s.len() - 1 { i } else { k }] == #[trigger] s[k],
{
}

/// Takes out the entry that goes first and returns it with its former index.
pub fn pop_best(heap: &mut Vec<HeapEntry>) -> (r: (HeapEntry, Ghost<int>))
    requires
        old(heap).len() > 0,
    ensures
        0 <= r.1@ < old(heap).len(),
        r.0 == old(heap)@[r.1@],
        final(heap)@ == removed(old(heap)@, r.1@),
        forall|k: int| 0 <= k < old(heap).len() ==> goes_first(r.0, #[trigger] old(heap)@[k]),
{
    let ghost h0 = heap@;
    let mut best: usize = 0;
    let mut k: usize = 1;
    while k < heap.len()
        invariant
            heap@ == h0,
            1 <= k <= heap.len(),
            best < heap.len(),
            forall|j: int| 0 <= j < k ==> goes_first(heap@[best as int], #[trigger] heap@[j]),
        decreases heap.len() - k,
    {
        let e = heap[k];
        let b = heap[best];
        if e.priority < b.priority || (e.priority == b.priority && e.position > b.position) {
            best = k;
        }
        k = k + 1;
    }
    let e = heap.swap_remove(best);
    (e, Ghost(best as int))
}

/// The lowest priority in the queue, if it holds any entry.
pub fn peek_priority(heap: &Vec<HeapEntry>) -> (r: Option<usize>)
    ensures
        r is None <==> heap.len() == 0,
        r matches Some(p) ==> (exists|k: int| 0 <= k < heap.len() && #[trigger] heap@[k].priority == p)
            && forall|k: int| 0 <= k < heap.len() ==> p <= #[trigger] heap@[k].priority,
{
    if heap.len() == 0 {
        return None;
    }
    let mut p = heap[0].priority;
    let mut k: usize = 1;
    while k < heap.len()
        invariant
            1 <= k <= heap.len(),
            exists|j: int| 0 <= j < k && #[trigger] heap@[j].priority == p,
            forall|j: int| 0 <= j < k ==> p <= #[trigger] heap@[j].priority,
        decreases heap.len() - k,
    {
        if heap[k].priority < p {
            p = heap[k].priority;
        }
        k = k + 1;
    }
    Some(p)
}

/// The value a distance map gives `v` in the termination measure: its
/// distance, or more than any distance while it has none.
pub open spec fn term(dist: Map<usize, usize>, v: usize) -> nat {
    if dist.contains_key(v) {
        dist[v] as nat
    } else {
        usize::MAX as nat + 1
    }
}

/// The sum of the terms of the nodes `0..n`; every improvement lowers it.
pub open spec fn potential(dist: Map<usize, usize>, n: nat) -> nat
    decreases n,
{
    if n == 0 {
        0
    } else {
        potential(dist, (n - 1) as nat) + term(dist, (n - 1) as usize)
    }
}

proof fn lemma_potential_untouched(dist: Map<usize, usize>, v: usize, x: usize, m: nat)
    requires
        m <= v,
    ensures
        potential(dist.insert(v, x), m) == potential(dist, m),
    decreases m,
{
    if m > 0 {
        lemma_potential_untouched(dist, v, x, (m - 1) as nat);
        assert(term(dist.insert(v, x), (m - 1) as usize) == term(dist, (m - 1) as usize));
    }
}

/// Lowering or giving a first distance to a node below `n` lowers the potential.
pub proof fn lemma_potential_improve(dist: Map<usize, usize>, v: usize, x: usize, n: nat)
    requires
        v < n,
        n <= usize::MAX as nat + 1,
        !dist.contains_key(v) || x < dist[v],
    ensures
        potential(dist.insert(v, x), n) < potential(dist, n),
    decreases n,
{
    let d2 = dist.insert(v, x);
    if n - 1 == v {
        lemma_potential_untouched(dist, v, x, (n - 1) as nat);
        assert(term(d2, v) < term(dist, v));
    } else {
        lemma_potential_improve(dist, v, x, (n - 1) as nat);
        assert(term(d2, (n - 1) as usize) == term(dist, (n - 1) as usize));
    }
}

/// A finite set of indices below `n` has at most `n` elements.
pub proof fn lemma_indices_len(s: Set<usize>, n: nat)
    requires
        s.finite(),
        forall|v: usize| #[trigger] s.contains(v) ==> v < n,
    ensures
        s.len() <= n,
    decreases n,
{
    if n == 0 {
        if s.len() > 0 {
            let x = s.choose();
            assert(s.contains(x));
        }
    } else {
        let top = (n - 1) as usize;
        let s2 = s.remove(top);
        assert forall|v: usize| #[trigger] s2.contains(v) implies v < n - 1 by {
            assert(s.contains(v));
        }
        lemma_indices_len(s2, (n - 1) as nat);
        assert(s.len() <= s2.len() + 1);
    }
}

/// The number of keys of a map whose keys are indices below `n`.
pub proof fn lemma_keys_len<V>(m: Map<usize, V>, n: nat)
    requires
        m.dom().finite(),
        forall|v: usize| #[trigger] m.contains_key(v) ==> v < n,
    ensures
        m.dom().len() <= n,
{
    assert forall|v: usize| #[trigger] m.dom().contains(v) implies v < n by {
        assert(m.contains_key(v));
    }
    lemma_indices_len(m.dom(), n);
}

/// Looks up the distance of `v`, if it has one.
pub fn distance_of(dist: &HashMap<usize, usize>, v: usize) -> (r: Option<usize>)
    ensures
        r is Some <==> dist@.contains_key(v),
        r matches Some(d) ==> d == dist@[v],
{
    broadcast use vstd::std_specs::hash::group_hash_axioms;
    match dist.get(&v) {
        Some(d) => Some(*d),
        None => None,
    }
}

} // verus!
