//! Sorting items by key in chunks and merging the sorted chunks: the
//! decisions of the external merge sort that orders spatial tables.

use vstd::prelude::*;

verus! {

/// The chunk that position `p` of a run of chunks of `cs` entries lies in.
pub open spec fn chunk_of(p: int, cs: nat) -> int {
    p / (cs as int)
}

/// The end of chunk `c` of a run of `n` entries.
pub open spec fn chunk_end(c: int, cs: nat, n: nat) -> int {
    if c * cs + cs < n {
        c * cs + cs
    } else {
        n as int
    }
}

/// The entry at position `p` of the run goes out before the one at `q`: it
/// has a smaller key, or an equal key and lies in a later chunk, or in the
/// same chunk at an earlier position.
pub open spec fn goes_before(run: Seq<(u64, u64)>, cs: nat, p: int, q: int) -> bool {
    ||| run[p].0 < run[q].0
    ||| run[p].0 == run[q].0 && chunk_of(p, cs) > chunk_of(q, cs)
    ||| run[p].0 == run[q].0 && chunk_of(p, cs) == chunk_of(q, cs) && p < q
}

/// Within each chunk of the run the keys do not descend.
pub open spec fn chunks_sorted(run: Seq<(u64, u64)>, cs: nat) -> bool {
    forall|p: int, q: int|
        0 <= p < q < run.len() && chunk_of(p, cs) == chunk_of(q, cs) ==> #[trigger] run[p].0 <= #[trigger] run[q].0
}

/// `order` lists every position below `n` exactly once.
pub open spec fn is_permutation(order: Seq<usize>, n: nat) -> bool {
    &&& order.no_duplicates()
    &&& forall|a: int| 0 <= a < order.len() ==> #[trigger] order[a] < n
    &&& forall|p: usize| p < n ==> #[trigger] order.contains(p)
}

/// Every chunk's cursor lies within the chunk.
pub open spec fn cursors_ok(pos: Seq<usize>, cs: nat, n: nat) -> bool {
    forall|c: int| 0 <= c < pos.len() ==> c * cs <= #[trigger] pos[c] <= chunk_end(c, cs, n)
}

/// Position `p` has gone out: it lies before its chunk's cursor.
pub open spec fn taken(pos: Seq<usize>, cs: nat, p: int) -> bool {
    p < pos[chunk_of(p, cs)]
}

/// The number of entries that have not gone out yet.
pub open spec fn remaining(pos: Seq<usize>, cs: nat, n: nat) -> nat
    decreases pos.len(),
{
    if pos.len() == 0 {
        0
    } else {
        remaining(pos.drop_last(), cs, n) + (chunk_end(pos.len() - 1, cs, n) - pos.last()) as nat
    }
}

proof fn lemma_chunk_range(p: int, c: int, cs: nat)
    requires
        cs >= 1,
        c * cs <= p < c * cs + cs,
    ensures
        chunk_of(p, cs) == c,
{
    assert(p / (cs as int) == c) by (nonlinear_arith)
        requires
            cs >= 1,
            c * cs <= p < c * cs + cs,
    ;
}

/// Position `p` lies in chunk `p / cs`, below that chunk's end.
proof fn lemma_chunk_of(p: int, cs: nat, n: nat, k: nat)
    requires
        cs >= 1,
        0 <= p < n,
        n <= k * cs,
    ensures
        0 <= chunk_of(p, cs) < k,
        chunk_of(p, cs) * cs <= p < chunk_end(chunk_of(p, cs), cs, n),
{
    let c = chunk_of(p, cs);
    assert(c * cs <= p < c * cs + cs && 0 <= c) by (nonlinear_arith)
        requires
            cs >= 1,
            p >= 0,
            c == p / (cs as int),
    ;
    assert(c < k) by (nonlinear_arith)
        requires
            c * cs <= p,
            p < n,
            n <= k * cs,
            cs >= 1,
    ;
}

proof fn lemma_remaining_step(pos: Seq<usize>, cs: nat, n: nat, c: int)
    requires
        0 <= c < pos.len(),
        n <= usize::MAX,
        cursors_ok(pos, cs, n),
        pos[c] < chunk_end(c, cs, n),
    ensures
        remaining(pos.update(c, (pos[c] + 1) as usize), cs, n) + 1 == remaining(pos, cs, n),
    decreases pos.len(),
{
    let p2 = pos.update(c, (pos[c] + 1) as usize);
    assert(chunk_end(c, cs, n) <= n);
    if c == pos.len() - 1 {
        assert(p2.drop_last() =~= pos.drop_last());
        assert(p2.last() == pos[c] + 1);
    } else {
        assert(p2.last() == pos.last());
        assert(p2.drop_last() =~= pos.drop_last().update(c, (pos[c] + 1) as usize));
        assert forall|d: int| 0 <= d < pos.drop_last().len() implies d * cs <= #[trigger] pos.drop_last()[d]
            <= chunk_end(d, cs, n) by {
            assert(pos.drop_last()[d] == pos[d]);
        }
        lemma_remaining_step(pos.drop_last(), cs, n, c);
    }
}

/// Merges the sorted chunks of a run: the positions of the run in the order
/// in which a min-heap keyed on the chunk heads gives them out, the smallest
/// key first and, among equal keys, the later chunk first.
pub fn merge_order(run: &Vec<(u64, u64)>, cs: usize) -> (order: Vec<usize>)
    requires
        cs >= 1,
        chunks_sorted(run@, cs as nat),
    ensures
        is_permutation(order@, run@.len()),
        forall|a: int, b: int|
            0 <= a < b < order@.len() ==> goes_before(
                run@,
                cs as nat,
                #[trigger] order@[a] as int,
                #[trigger] order@[b] as int,
            ),
{
    let n = run.len();
    proof {
        assert(n % cs != 0 ==> n / cs + 1 <= n) by (nonlinear_arith)
            requires
                cs >= 1,
        ;
    }
    let k: usize = n / cs + if n % cs != 0 {
        1usize
    } else {
        0usize
    };
    proof {
        assert(n <= k * cs && (k == 0 || (k - 1) * cs < n)) by (nonlinear_arith)
            requires
                cs >= 1,
                k == n / cs + if n % cs != 0 {
                    1int
                } else {
                    0int
                },
        ;
    }
    let mut pos: Vec<usize> = Vec::new();
    let mut c: usize = 0;
    while c < k
        invariant
            cs >= 1,
            n == run@.len(),
            n <= k * cs,
            k == 0 || (k - 1) * cs < n,
            c <= k,
            pos@.len() == c,
            forall|d: int| 0 <= d < c ==> #[trigger] pos@[d] == d * cs && d * cs < n,
        decreases k - c,
    {
        proof {
            assert(c * cs <= (k - 1) * cs) by (nonlinear_arith)
                requires
                    c <= k - 1,
            ;
        }
        pos.push(c * cs);
        c = c + 1;
    }
    proof {
        assert forall|d: int| 0 <= d < pos@.len() implies d * cs <= #[trigger] pos@[d] <= chunk_end(d, cs as nat, n as nat) by {}
    }
    let mut order: Vec<usize> = Vec::new();
    proof {
        assert forall|p: usize| p < n implies !taken(pos@, cs as nat, p as int) by {
            lemma_chunk_of(p as int, cs as nat, n as nat, k as nat);
        }
    }
    loop
        invariant_except_break
            cs >= 1,
            n == run@.len(),
            chunks_sorted(run@, cs as nat),
            n <= k * cs,
            pos@.len() == k,
            cursors_ok(pos@, cs as nat, n as nat),
            forall|p: usize| p < n ==> (taken(pos@, cs as nat, p as int) <==> #[trigger] order@.contains(p)),
            order@.no_duplicates(),
            forall|a: int| 0 <= a < order@.len() ==> #[trigger] order@[a] < n,
            forall|a: int, b: int|
                0 <= a < b < order@.len() ==> goes_before(
                    run@,
                    cs as nat,
                    #[trigger] order@[a] as int,
                    #[trigger] order@[b] as int,
                ),
            forall|a: int, q: int|
                #![trigger order@[a], taken(pos@, cs as nat, q)]
                0 <= a < order@.len() && 0 <= q < n && !taken(pos@, cs as nat, q) ==> goes_before(
                    run@,
                    cs as nat,
                    order@[a] as int,
                    q,
                ),
        ensures
            is_permutation(order@, n as nat),
            forall|a: int, b: int|
                0 <= a < b < order@.len() ==> goes_before(
                    run@,
                    cs as nat,
                    #[trigger] order@[a] as int,
                    #[trigger] order@[b] as int,
                ),
        decreases remaining(pos@, cs as nat, n as nat),
    {
        let mut best: Option<usize> = None;
        let mut best_key: u64 = 0;
        let mut d: usize = 0;
        while d < k
            invariant
                cs >= 1,
                n == run@.len(),
                n <= k * cs,
                pos@.len() == k,
                cursors_ok(pos@, cs as nat, n as nat),
                d <= k,
                best matches Some(b) ==> b < d && pos@[b as int] < chunk_end(b as int, cs as nat, n as nat)
                    && best_key == run@[pos@[b as int] as int].0,
                forall|e: int|
                    0 <= e < d && pos@[e] < chunk_end(e, cs as nat, n as nat) ==> (best matches Some(b) && (
                    best_key < run@[#[trigger] pos@[e] as int].0 || (best_key == run@[pos@[e] as int].0 && e
                        <= b))),
            decreases k - d,
        {
            proof {
                assert(pos@[d as int] <= chunk_end(d as int, cs as nat, n as nat));
                assert(d * cs <= pos@[d as int]);
            }
            let start = pos[d];
            let base = d * cs;
            let end = if n - base < cs {
                n
            } else {
                base + cs
            };
            proof {
                assert(end == chunk_end(d as int, cs as nat, n as nat));
            }
            if start < end {
                let key = run[start].0;
                if best.is_none() || key <= best_key {
                    best = Some(d);
                    best_key = key;
                }
            }
            d = d + 1;
        }
        match best {
            None => {
                proof {
                    assert forall|p: usize| p < n implies #[trigger] order@.contains(p) by {
                        lemma_chunk_of(p as int, cs as nat, n as nat, k as nat);
                        let e = chunk_of(p as int, cs as nat);
                        assert(pos@[e] >= chunk_end(e, cs as nat, n as nat));
                    }
                }
                break;
            },
            Some(b) => {
                let h = pos[b];
                let ghost old_pos = pos@;
                let ghost old_order = order@;
                proof {
                    lemma_chunk_range(h as int, b as int, cs as nat);
                    lemma_remaining_step(old_pos, cs as nat, n as nat, b as int);
                    // every entry not yet out comes after the chosen one
                    assert forall|q: int| 0 <= q < n && !taken(old_pos, cs as nat, q) && q != h implies goes_before(
                        run@,
                        cs as nat,
                        h as int,
                        q,
                    ) by {
                        lemma_chunk_of(q, cs as nat, n as nat, k as nat);
                        let e = chunk_of(q, cs as nat);
                        let head = old_pos[e];
                        assert(head <= q);
                        assert(head < chunk_end(e, cs as nat, n as nat));
                        lemma_chunk_range(head as int, e, cs as nat);
                        if head < q {
                            assert(run@[head as int].0 <= run@[q].0);
                        }
                    }
                }
                order.push(h);
                pos.set(b, h + 1);
                proof {
                    assert(pos@ == old_pos.update(b as int, (h + 1) as usize));
                    assert forall|p: int| 0 <= p < n implies (taken(pos@, cs as nat, p) <==> taken(old_pos, cs as nat, p)
                        || p == h) by {
                        lemma_chunk_of(p, cs as nat, n as nat, k as nat);
                    }
                    assert forall|p: usize| p < n implies (taken(pos@, cs as nat, p as int) <==> #[trigger] order@.contains(p)) by {
                        assert(order@.contains(p) <==> old_order.contains(p) || p == h) by {
                            if old_order.contains(p) {
                                let a = choose|a: int| 0 <= a < old_order.len() && old_order[a] == p;
                                assert(order@[a] == p);
                            }
                            if order@.contains(p) {
                                let a = choose|a: int| 0 <= a < order@.len() && order@[a] == p;
                                if a < old_order.len() {
                                    assert(old_order[a] == p);
                                }
                            }
                            assert(order@[old_order.len() as int] == h);
                        }
                    }
                    assert(!old_order.contains(h)) by {
                        lemma_chunk_of(h as int, cs as nat, n as nat, k as nat);
                    }
                    assert forall|a: int, b2: int| 0 <= a < b2 < order@.len() implies order@[a] != order@[b2] by {
                        if b2 == old_order.len() {
                            assert(old_order.contains(old_order[a]));
                        } else {
                            assert(old_order[a] != old_order[b2]);
                        }
                    }
                    assert forall|a: int, b2: int| 0 <= a < b2 < order@.len() implies goes_before(
                        run@,
                        cs as nat,
                        #[trigger] order@[a] as int,
                        #[trigger] order@[b2] as int,
                    ) by {
                        if b2 == old_order.len() {
                            lemma_chunk_of(h as int, cs as nat, n as nat, k as nat);
                            assert(!taken(old_pos, cs as nat, h as int));
                        } else {
                            assert(goes_before(run@, cs as nat, old_order[a] as int, old_order[b2] as int));
                        }
                    }
                    assert forall|a: int, q: int|
                        #![trigger order@[a], taken(pos@, cs as nat, q)]
                        0 <= a < order@.len() && 0 <= q < n && !taken(pos@, cs as nat, q) implies goes_before(
                        run@,
                        cs as nat,
                        order@[a] as int,
                        q,
                    ) by {
                        assert(!taken(old_pos, cs as nat, q) && q != h);
                        if a < old_order.len() {
                            assert(goes_before(run@, cs as nat, old_order[a] as int, q));
                        }
                    }
                }
            },
        }
    }
    order
}

/// Pair `a` comes before or equals pair `b` in tuple order.
pub open spec fn pair_le(a: (u64, u64), b: (u64, u64)) -> bool {
    a.0 < b.0 || (a.0 == b.0 && a.1 <= b.1)
}

/// Pair `a` comes strictly before pair `b` in tuple order.
pub open spec fn pair_lt(a: (u64, u64), b: (u64, u64)) -> bool {
    a.0 < b.0 || (a.0 == b.0 && a.1 < b.1)
}

/// `slice::sort_unstable` on `(key, index)` pairs: afterwards the vector
/// holds the same pairs, as a multiset, ascending in tuple order (by key,
/// then by index).
#[verifier::external_body]
fn sort_pairs(v: &mut Vec<(u64, u64)>)
    ensures
        final(v)@.to_multiset() == old(v)@.to_multiset(),
        forall|i: int, j: int| 0 <= i < j < final(v)@.len() ==> pair_le(#[trigger] final(v)@[i], #[trigger] final(v)@[j]),
{
    v.sort_unstable();
}

/// Item `i` goes out before item `j`: a smaller key, or an equal key and a
/// later chunk of `cs` items, or the same chunk and a smaller index.
pub open spec fn item_before(keys: Seq<u64>, cs: nat, i: int, j: int) -> bool {
    ||| keys[i] < keys[j]
    ||| keys[i] == keys[j] && chunk_of(i, cs) > chunk_of(j, cs)
    ||| keys[i] == keys[j] && chunk_of(i, cs) == chunk_of(j, cs) && i < j
}

/// Some pair of `s` has index `i`.
pub open spec fn has_index(s: Seq<(u64, u64)>, i: int) -> bool {
    exists|j: int| 0 <= j < s.len() && (#[trigger] s[j]).1 == i
}

/// The pairs `(keys[i], i)` for `i` in `start..end`.
pub open spec fn chunk_pairs(keys: Seq<u64>, start: int, end: int) -> Seq<(u64, u64)> {
    Seq::new((end - start) as nat, |j: int| (keys[start + j], (start + j) as u64))
}

/// The pairs of a sorted chunk: each is `(keys[i], i)` for an `i` of the
/// chunk, they ascend strictly, and every index of the chunk occurs.
proof fn lemma_sorted_chunk(keys: Seq<u64>, start: int, end: int, raw: Seq<(u64, u64)>, sorted: Seq<(u64, u64)>)
    requires
        0 <= start <= end <= keys.len() <= u64::MAX,
        raw == chunk_pairs(keys, start, end),
        sorted.to_multiset() == raw.to_multiset(),
        forall|i: int, j: int| 0 <= i < j < sorted.len() ==> pair_le(#[trigger] sorted[i], #[trigger] sorted[j]),
    ensures
        sorted.len() == end - start,
        forall|j: int|
            0 <= j < sorted.len() ==> start <= (#[trigger] sorted[j]).1 < end && sorted[j].0 == keys[sorted[j].1 as int],
        forall|i: int, j: int| 0 <= i < j < sorted.len() ==> pair_lt(#[trigger] sorted[i], #[trigger] sorted[j]),
        forall|i: int| start <= i < end ==> #[trigger] has_index(sorted, i),
{
    raw.to_multiset_ensures();
    sorted.to_multiset_ensures();
    assert(raw.no_duplicates()) by {
        assert forall|a: int, b: int| 0 <= a < raw.len() && 0 <= b < raw.len() && a != b implies raw[a] != raw[b] by {
            assert(raw[a].1 != raw[b].1);
        }
    }
    raw.lemma_multiset_has_no_duplicates();
    assert forall|x: (u64, u64)| sorted.to_multiset().contains(x) implies sorted.to_multiset().count(x) == 1 by {}
    sorted.lemma_multiset_has_no_duplicates_conv();
    assert forall|j: int| 0 <= j < sorted.len() implies start <= (#[trigger] sorted[j]).1 < end && sorted[j].0
        == keys[sorted[j].1 as int] by {
        assert(sorted.contains(sorted[j]));
        assert(sorted.to_multiset().count(sorted[j]) > 0);
        assert(raw.to_multiset().count(sorted[j]) > 0);
        assert(raw.contains(sorted[j]));
        let a = choose|a: int| 0 <= a < raw.len() && raw[a] == sorted[j];
    }
    assert forall|i: int, j: int| 0 <= i < j < sorted.len() implies pair_lt(#[trigger] sorted[i], #[trigger] sorted[j]) by {
        assert(pair_le(sorted[i], sorted[j]));
        assert(sorted[i] != sorted[j]);
    }
    assert forall|i: int| start <= i < end implies #[trigger] has_index(sorted, i) by {
        assert(raw[i - start] == (keys[i], i as u64));
        assert(raw.contains(raw[i - start]));
        assert(raw.to_multiset().count(raw[i - start]) > 0);
        assert(sorted.to_multiset().count(raw[i - start]) > 0);
        assert(sorted.contains(raw[i - start]));
    }
}

/// Sorts `count = keys.len()` items by key as an external merge sort does:
/// chunks of `chunk_size` consecutive items are sorted by `(key, index)`,
/// then merged by a min-heap on the chunk heads. Gives the indices of all
/// items, each once, in the order of [`item_before`].
pub fn sort_and_merge(keys: &Vec<u64>, chunk_size: usize) -> (r: Vec<u64>)
    requires
        chunk_size >= 1,
    ensures
        r@.no_duplicates(),
        forall|a: int| 0 <= a < r@.len() ==> #[trigger] r@[a] < keys@.len(),
        forall|i: u64| i < keys@.len() ==> #[trigger] r@.contains(i),
        forall|a: int, b: int|
            0 <= a < b < r@.len() ==> item_before(keys@, chunk_size as nat, #[trigger] r@[a] as int, #[trigger] r@[b] as int),
{
    let n = keys.len();
    let cs = chunk_size;
    let mut run: Vec<(u64, u64)> = Vec::new();
    let mut start: usize = 0;
    let ghost mut c: int = 0;
    while start < n
        invariant
            cs >= 1,
            n == keys@.len(),
            start <= n,
            start < n ==> start == c * cs,
            c >= 0,
            run@.len() == start,
            forall|p: int|
                0 <= p < start ==> (#[trigger] run@[p]).1 < start && run@[p].0 == keys@[run@[p].1 as int]
                    && chunk_of(run@[p].1 as int, cs as nat) == chunk_of(p, cs as nat),
            forall|p: int, q: int|
                0 <= p < q < start && chunk_of(p, cs as nat) == chunk_of(q, cs as nat) ==> pair_lt(
                    #[trigger] run@[p],
                    #[trigger] run@[q],
                ),
            forall|i: int| 0 <= i < start ==> #[trigger] has_index(run@, i),
        decreases n - start,
    {
        let end = if n - start < cs {
            n
        } else {
            start + cs
        };
        let mut chunk: Vec<(u64, u64)> = Vec::new();
        let mut i = start;
        while i < end
            invariant
                start <= i <= end <= n,
                n == keys@.len(),
                chunk@ == chunk_pairs(keys@, start as int, i as int),
            decreases end - i,
        {
            chunk.push((keys[i], i as u64));
            proof {
                assert(chunk@ =~= chunk_pairs(keys@, start as int, i + 1));
            }
            i = i + 1;
        }
        let ghost raw = chunk@;
        sort_pairs(&mut chunk);
        proof {
            lemma_sorted_chunk(keys@, start as int, end as int, raw, chunk@);
        }
        let ghost before = run@;
        let ghost sorted = chunk@;
        run.append(&mut chunk);
        proof {
            assert(run@ == before + sorted);
            assert forall|p: int| start <= p < end implies chunk_of(p, cs as nat) == c by {
                lemma_chunk_range(p, c, cs as nat);
            }
            assert forall|p: int| 0 <= p < start implies chunk_of(p, cs as nat) < c by {
                assert(p / (cs as int) < c) by (nonlinear_arith)
                    requires
                        0 <= p < start,
                        start == c * cs,
                        cs >= 1,
                ;
            }
            assert forall|p: int|
                0 <= p < end implies (#[trigger] run@[p]).1 < end && run@[p].0 == keys@[run@[p].1 as int]
                && chunk_of(run@[p].1 as int, cs as nat) == chunk_of(p, cs as nat) by {
                if p >= start {
                    assert(run@[p] == sorted[p - start]);
                    lemma_chunk_range(sorted[p - start].1 as int, c, cs as nat);
                } else {
                    assert(run@[p] == before[p]);
                }
            }
            assert forall|p: int, q: int|
                0 <= p < q < end && chunk_of(p, cs as nat) == chunk_of(q, cs as nat) implies pair_lt(
                #[trigger] run@[p],
                #[trigger] run@[q],
            ) by {
                if p >= start {
                    assert(run@[p] == sorted[p - start] && run@[q] == sorted[q - start]);
                } else if q < start {
                    assert(run@[p] == before[p] && run@[q] == before[q]);
                } else {
                    assert(chunk_of(p, cs as nat) < c);
                }
            }
            assert forall|i: int| 0 <= i < end implies #[trigger] has_index(run@, i) by {
                if i >= start {
                    assert(has_index(sorted, i));
                    let j = choose|j: int| 0 <= j < sorted.len() && (#[trigger] sorted[j]).1 == i;
                    assert(run@[start + j] == sorted[j]);
                } else {
                    assert(has_index(before, i));
                    let p = choose|p: int| 0 <= p < before.len() && (#[trigger] before[p]).1 == i;
                    assert(run@[p] == before[p]);
                }
            }
            if end < n {
                assert(end == (c + 1) * cs) by (nonlinear_arith)
                    requires
                        end == start + cs,
                        start == c * cs,
                ;
            }
            c = c + 1;
        }
        start = end;
    }
    proof {
        assert forall|p: int, q: int|
            0 <= p < q < run@.len() && chunk_of(p, cs as nat) == chunk_of(q, cs as nat) implies #[trigger] run@[p].0
            <= #[trigger] run@[q].0 by {
            assert(pair_lt(run@[p], run@[q]));
        }
    }
    let order = merge_order(&run, cs);
    let mut r: Vec<u64> = Vec::new();
    let mut t: usize = 0;
    while t < order.len()
        invariant
            n == keys@.len(),
            run@.len() == n,
            is_permutation(order@, n as nat),
            t <= order@.len(),
            r@.len() == t,
            forall|a: int| 0 <= a < t ==> #[trigger] r@[a] == run@[order@[a] as int].1,
        decreases order.len() - t,
    {
        r.push(run[order[t]].1);
        t = t + 1;
    }
    proof {
        assert forall|a: int, b: int| 0 <= a < r@.len() && 0 <= b < r@.len() && a != b implies r@[a] != r@[b] by {
            let p = order@[a] as int;
            let q = order@[b] as int;
            assert(p != q);
            if chunk_of(p, cs as nat) == chunk_of(q, cs as nat) {
                if p < q {
                    assert(pair_lt(run@[p], run@[q]));
                } else {
                    assert(pair_lt(run@[q], run@[p]));
                }
            }
        }
        assert forall|i: u64| i < n implies #[trigger] r@.contains(i) by {
            assert(has_index(run@, i as int));
            let p = choose|p: int| 0 <= p < run@.len() && (#[trigger] run@[p]).1 == i;
            assert(order@.contains(p as usize));
            let a = choose|a: int| 0 <= a < order@.len() && order@[a] == p as usize;
            assert(r@[a] == i);
        }
        assert forall|a: int, b: int| 0 <= a < b < r@.len() implies item_before(
            keys@,
            cs as nat,
            #[trigger] r@[a] as int,
            #[trigger] r@[b] as int,
        ) by {
            let p = order@[a] as int;
            let q = order@[b] as int;
            assert(goes_before(run@, cs as nat, p, q));
            if run@[p].0 == run@[q].0 && chunk_of(p, cs as nat) == chunk_of(q, cs as nat) {
                assert(pair_lt(run@[p], run@[q]));
            }
        }
    }
    r
}

} // verus!
