//! Isochrone requests: what a range threshold is measured in.

use std::collections::HashMap;

use vstd::prelude::*;

use crate::service::virtual_graph::VIRTUAL_START;

verus! {

/// The unit of isochrone ranges.
#[derive(Copy, Clone, Debug, PartialEq, Eq, Structural)]
pub enum IsochroneUnit {
    /// Distance in kilometres.
    Km,
    /// Distance in miles.
    Mi,
    /// Travel time in minutes.
    Min,
}

impl Default for IsochroneUnit {
    fn default() -> (r: Self)
        ensures
            r == IsochroneUnit::Km,
    {
        IsochroneUnit::Km
    }
}

/// The edge nodes that a search reached within `threshold`, leaving out the
/// virtual start, each once and in no particular order.
pub fn reached_within(costs: &HashMap<usize, usize>, threshold: usize) -> (r: Vec<usize>)
    ensures
        r@.no_duplicates(),
        forall|k: usize|
            #[trigger] r@.contains(k) <==> (costs@.contains_key(k) && costs@[k] <= threshold && k != VIRTUAL_START),
{
    broadcast use vstd::std_specs::hash::group_hash_axioms;

    let mut out: Vec<usize> = Vec::new();
    for k in it: costs.keys()
        invariant
            it.seq().unref().to_set() == costs@.dom(),
            it.seq().no_duplicates(),
            out@.no_duplicates(),
            forall|x: usize|
                #[trigger] out@.contains(x) <==> (exists|j: int|
                    0 <= j < it.index() && *it.seq()[j] == x) && costs@.contains_key(x) && costs@[x] <= threshold && x
                    != VIRTUAL_START,
    {
        let ghost i = it.index();
        let ghost before = out@;
        assert(k == it.seq()[i]);
        let c = costs.get(k);
        if *k != VIRTUAL_START {
            if let Some(c) = c {
                if *c <= threshold {
                    out.push(*k);
                }
            }
        }
        proof {
            let kk = *k;
            let added = costs@.contains_key(kk) && costs@[kk] <= threshold && kk != VIRTUAL_START;
            assert(out@ == if added { before.push(kk) } else { before });
            assert(!before.contains(kk)) by {
                if before.contains(kk) {
                    let j = choose|j: int| 0 <= j < i && *it.seq()[j] == kk;
                    assert(it.seq()[j] != it.seq()[i]);
                }
            }
            assert forall|x: usize| #[trigger] out@.contains(x) <==> (exists|j: int|
                0 <= j < i + 1 && *it.seq()[j] == x) && costs@.contains_key(x) && costs@[x] <= threshold && x
                != VIRTUAL_START by {
                let was = exists|j: int| 0 <= j < i && *it.seq()[j] == x;
                assert(before.contains(x) <==> was && costs@.contains_key(x) && costs@[x] <= threshold && x
                    != VIRTUAL_START);
                if x == kk {
                    assert(*it.seq()[i] == x);
                    if added {
                        assert(out@[before.len() as int] == x);
                    }
                } else {
                    assert((exists|j: int| 0 <= j < i + 1 && *it.seq()[j] == x) <==> was) by {
                        if exists|j: int| 0 <= j < i + 1 && *it.seq()[j] == x {
                            let j = choose|j: int| 0 <= j < i + 1 && *it.seq()[j] == x;
                            assert(j < i);
                        }
                    }
                    assert(out@.contains(x) <==> before.contains(x)) by {
                        if out@.contains(x) {
                            let j = choose|j: int| 0 <= j < out@.len() && out@[j] == x;
                            assert(j < before.len());
                            assert(before[j] == x);
                        }
                        if before.contains(x) {
                            let j = choose|j: int| 0 <= j < before.len() && before[j] == x;
                            assert(out@[j] == x);
                        }
                    }
                }
            }
        }
    }
    out
}

} // verus!
