//! Looking up table items by key: binary search over a table sorted by key,
//! narrowed first by a sparse index that holds the first key of every block.

use vstd::prelude::*;

use crate::storage::header::Item;

verus! {

/// Target size of the sparse index key array (~4 MB).
pub const TARGET_INDEX_BYTES: usize = 4194304;

/// The number of keys that the index aims for: one `u64` per 8 bytes.
pub const TARGET_INDEX_KEYS: usize = 524288;

/// The keys of `items` strictly ascend: they are sorted and unique.
pub open spec fn keys_ascending<D: Item>(items: Seq<D>) -> bool {
    forall|i: int, j: int| 0 <= i < j < items.len() ==> #[trigger] items[i].key_spec() < #[trigger] items[j].key_spec()
}

/// `a / b` rounded up.
pub open spec fn ceil_div(a: nat, b: nat) -> nat
    recommends
        b > 0,
{
    ((a + b - 1) / (b as int)) as nat
}

/// The block size and number of blocks of the index of a table of `n` items:
/// blocks of `ceil(n / min(TARGET_INDEX_KEYS, n))` items, or no index when
/// the table is empty or would fill a single block.
pub open spec fn index_layout_spec(n: nat) -> Option<(nat, nat)> {
    if n == 0 {
        None
    } else {
        let target = if TARGET_INDEX_KEYS < n {
            TARGET_INDEX_KEYS as nat
        } else {
            n
        };
        let x = ceil_div(n, target);
        let y = ceil_div(n, x);
        if y <= 1 {
            None
        } else {
            Some((x, y))
        }
    }
}

/// The sparse lookup index of a table: the first key of every block of
/// `entries_per_block` items.
pub struct SparseIndex {
    pub keys: Vec<u64>,
    pub entries_per_block: usize,
    /// The number of items in the table.
    pub num_data_entries: usize,
}

impl SparseIndex {
    /// The index describes `items`: key `j` is the key of item `j * x`, and the
    /// blocks cover the whole table.
    pub open spec fn indexes<D: Item>(&self, items: Seq<D>) -> bool {
        let x = self.entries_per_block as nat;
        let y = self.keys@.len();
        &&& x >= 1
        &&& y >= 1
        &&& self.num_data_entries == items.len()
        &&& y * x >= items.len()
        &&& forall|j: int| 0 <= j < y ==> #[trigger] (j * x) < items.len() && self.keys@[j] == items[j * x].key_spec()
    }
}

proof fn lemma_ceil_div(a: nat, b: nat)
    requires
        b > 0,
    ensures
        ceil_div(a, b) * b >= a,
        a > 0 ==> (ceil_div(a, b) - 1) * b < a,
        a > 0 ==> ceil_div(a, b) >= 1,
        ceil_div(a, b) <= a,
{
    let q = (a as int) / (b as int);
    let r = (a as int) % (b as int);
    assert(a == q * b + r && 0 <= r < b && q >= 0) by (nonlinear_arith)
        requires
            b > 0,
            a >= 0,
            q == (a as int) / (b as int),
            r == (a as int) % (b as int),
    ;
    let c = ceil_div(a, b);
    assert((a + b - 1) / (b as int) == if r == 0 { q } else { q + 1 }) by (nonlinear_arith)
        requires
            b > 0,
            a == q * b + r,
            0 <= r < b,
            q >= 0,
    ;
    assert(c * b >= a) by (nonlinear_arith)
        requires
            c == (if r == 0 { q } else { q + 1 }),
            a == q * b + r,
            0 <= r < b,
    ;
    if a > 0 {
        assert((c - 1) * b < a) by (nonlinear_arith)
            requires
                c == (if r == 0 { q } else { q + 1 }),
                a == q * b + r,
                0 <= r < b,
                a > 0,
        ;
        assert(c >= 1) by (nonlinear_arith)
            requires
                c == (if r == 0 { q } else { q + 1 }),
                a == q * b + r,
                0 <= r < b,
                a > 0,
        ;
    }
    assert(c <= a) by (nonlinear_arith)
        requires
            c == (if r == 0 { q } else { q + 1 }),
            a == q * b + r,
            0 <= r < b,
            b >= 1,
            q >= 0,
    ;
}

proof fn lemma_mul_mono(i: nat, j: nat, x: nat)
    requires
        i <= j,
    ensures
        i * x <= j * x,
{
    assert(i * x <= j * x) by (nonlinear_arith)
        requires
            i <= j,
    ;
}

fn ceil_div_exec(a: usize, b: usize) -> (r: usize)
    requires
        b > 0,
    ensures
        r == ceil_div(a as nat, b as nat),
{
    let q = a / b;
    let r = a % b;
    proof {
        assert((a + b - 1) / (b as int) == if r == 0 { q as int } else { q + 1 }) by (nonlinear_arith)
            requires
                b > 0,
                q == a / b,
                r == a % b,
        ;
    }
    if r == 0 {
        q
    } else {
        proof {
            assert(q + 1 <= a) by (nonlinear_arith)
                requires
                    b > 0,
                    q == a / b,
                    r == a % b,
                    r != 0,
            ;
        }
        q + 1
    }
}

/// The block size and number of blocks of the index of a table of `n` items
/// (see [`index_layout_spec`]).
pub fn index_layout(n: usize) -> (r: Option<(usize, usize)>)
    ensures
        match (r, index_layout_spec(n as nat)) {
            (Some((x, y)), Some((sx, sy))) => x == sx && y == sy,
            (None, None) => true,
            _ => false,
        },
        r matches Some((x, y)) ==> x >= 1 && y >= 2 && y * x >= n && (y - 1) * x < n,
{
    if n == 0 {
        return None;
    }
    let target = if TARGET_INDEX_KEYS < n {
        TARGET_INDEX_KEYS
    } else {
        n
    };
    let x = ceil_div_exec(n, target);
    proof {
        lemma_ceil_div(n as nat, target as nat);
    }
    let y = ceil_div_exec(n, x);
    proof {
        lemma_ceil_div(n as nat, x as nat);
    }
    if y <= 1 {
        None
    } else {
        Some((x, y))
    }
}

impl SparseIndex {
    /// Builds the index of a table sorted by key: `None` when the table is
    /// empty or small enough to fill a single block, else the key of every
    /// `x`-th item for the layout of [`index_layout_spec`].
    pub fn build<D: Item>(items: &[D]) -> (r: Option<SparseIndex>)
        ensures
            r is None <==> index_layout_spec(items@.len()) is None,
            r matches Some(ix) ==> ix.indexes(items@) && index_layout_spec(items@.len()) == Some(
                (ix.entries_per_block as nat, ix.keys@.len()),
            ),
    {
        let n = items.len();
        let (x, y) = match index_layout(n) {
            None => {
                return None;
            },
            Some(l) => l,
        };
        let mut keys: Vec<u64> = Vec::new();
        let mut j: usize = 0;
        while j < y
            invariant
                n == items@.len(),
                x >= 1,
                y >= 2,
                (y - 1) * x < n,
                j <= y,
                keys@.len() == j,
                forall|k: int| 0 <= k < j ==> #[trigger] (k * x) < n && keys@[k] == items@[k * x].key_spec(),
            decreases y - j,
        {
            proof {
                lemma_mul_mono(j as nat, (y - 1) as nat, x as nat);
            }
            let i = j * x;
            keys.push(items[i].key());
            j = j + 1;
        }
        Some(SparseIndex { keys, entries_per_block: x, num_data_entries: n })
    }
}

/// Binary search for `key` among the items at positions `lo..hi`.
fn search_range<D: Item>(items: &[D], lo: usize, hi: usize, key: u64) -> (r: Option<usize>)
    requires
        lo <= hi <= items@.len(),
        keys_ascending(items@),
    ensures
        r matches Some(i) ==> lo <= i < hi && items@[i as int].key_spec() == key,
        r is None ==> forall|i: int| lo <= i < hi ==> items@[i].key_spec() != key,
{
    let mut a = lo;
    let mut b = hi;
    while a < b
        invariant
            lo <= a <= b <= hi <= items@.len(),
            keys_ascending(items@),
            forall|i: int| lo <= i < a ==> items@[i].key_spec() < key,
            forall|i: int| b <= i < hi ==> items@[i].key_spec() > key,
        decreases b - a,
    {
        let mid = a + (b - a) / 2;
        let k = items[mid].key();
        if k == key {
            return Some(mid);
        } else if k < key {
            proof {
                assert forall|i: int| lo <= i < mid + 1 implies items@[i].key_spec() < key by {
                    if i < mid {
                        assert(items@[i].key_spec() < items@[mid as int].key_spec());
                    }
                }
            }
            a = mid + 1;
        } else {
            proof {
                assert forall|i: int| mid <= i < hi implies items@[i].key_spec() > key by {
                    if i > mid {
                        assert(items@[mid as int].key_spec() < items@[i].key_spec());
                    }
                }
            }
            b = mid;
        }
    }
    None
}

/// The last block whose first key is at most `key`, or the first block when
/// every block starts above `key`.
fn block_for(keys: &Vec<u64>, key: u64) -> (r: usize)
    requires
        keys@.len() >= 1,
        forall|i: int, j: int| 0 <= i < j < keys@.len() ==> #[trigger] keys@[i] < #[trigger] keys@[j],
    ensures
        r < keys@.len(),
        r > 0 ==> keys@[r as int] <= key,
        forall|j: int| r < j < keys@.len() ==> keys@[j] > key,
        r == 0 ==> keys@[0] > key || forall|j: int| 0 < j < keys@.len() ==> keys@[j] > key,
{
    let mut a: usize = 0;
    let mut b: usize = keys.len();
    while a < b
        invariant
            0 <= a <= b <= keys@.len(),
            forall|i: int, j: int| 0 <= i < j < keys@.len() ==> #[trigger] keys@[i] < #[trigger] keys@[j],
            forall|i: int| 0 <= i < a ==> keys@[i] <= key,
            forall|i: int| b <= i < keys@.len() ==> keys@[i] > key,
        decreases b - a,
    {
        let mid = a + (b - a) / 2;
        if keys[mid] <= key {
            a = mid + 1;
        } else {
            b = mid;
        }
    }
    if a == 0 {
        0
    } else {
        a - 1
    }
}

/// Finds the position of the item with `key` in a table sorted by key.
///
/// With a sparse index the search first narrows to the block that can hold
/// the key, then searches within that block; without one the whole table is
/// searched. Either way the item is found exactly when the table holds it.
pub fn find<D: Item>(items: &[D], index: Option<&SparseIndex>, key: u64) -> (r: Option<usize>)
    requires
        keys_ascending(items@),
        index matches Some(ix) ==> ix.indexes(items@),
    ensures
        r matches Some(i) ==> i < items@.len() && items@[i as int].key_spec() == key,
        r is None ==> forall|i: int| 0 <= i < items@.len() ==> items@[i].key_spec() != key,
{
    match index {
        None => search_range(items, 0, items.len(), key),
        Some(ix) => {
            let x = ix.entries_per_block;
            let n = items.len();
            proof {
                assert forall|i: int, j: int| 0 <= i < j < ix.keys@.len() implies #[trigger] ix.keys@[i]
                    < #[trigger] ix.keys@[j] by {
                    assert(i * x < n && j * x < n);
                    lemma_mul_mono(i as nat, j as nat, x as nat);
                    assert(i * x != j * x) by (nonlinear_arith)
                        requires
                            i < j,
                            x >= 1,
                    ;
                }
            }
            let block = block_for(&ix.keys, key);
            proof {
                assert(block * x < n);
            }
            let start = block * x;
            let end = if n - start < x {
                n
            } else {
                start + x
            };
            let r = search_range(items, start, end, key);
            proof {
                if r is None {
                    assert forall|i: int| 0 <= i < n implies items@[i].key_spec() != key by {
                        if i < start {
                            if block > 0 {
                                assert(items@[i].key_spec() < items@[start as int].key_spec());
                            } else {
                                assert(start == 0) by (nonlinear_arith)
                                    requires
                                        block == 0,
                                        start == block * x,
                                ;
                            }
                        } else if i >= end {
                            assert(end == start + x);
                            let b1 = block + 1;
                            assert(b1 * x == start + x) by (nonlinear_arith)
                                requires
                                    b1 == block + 1,
                                    start == block * x,
                            ;
                            if b1 < ix.keys@.len() {
                                assert(b1 * x < n);
                                assert(ix.keys@[b1 as int] > key);
                                if i > b1 * x {
                                    assert(items@[b1 * x].key_spec() < items@[i].key_spec());
                                }
                            } else {
                                lemma_mul_mono(ix.keys@.len(), b1 as nat, x as nat);
                            }
                        }
                    }
                }
            }
            r
        },
    }
}

} // verus!
