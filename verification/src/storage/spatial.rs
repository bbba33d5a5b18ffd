//! The layout of the packed R-tree spatial index file: how many entries each
//! tree level holds, where each level starts, and the checks a reader makes
//! on a file's header.

use vstd::prelude::*;

use crate::storage::morton::DEFAULT_CHUNK_SIZE;

verus! {

/// The magic number of a spatial index file (`SPAT_IDX`).
pub const MAGIC: u64 = 0x5350_4154_5f49_4458;

/// Data format version. Increment on any non-compatible change (eg: adding fields).
pub const VERSION: u32 = 1;

/// The most levels a tree may have.
pub const MAX_LEVELS: usize = 16;

/// Default branching factor.
pub const DEFAULT_NODE_SIZE: u32 = 16;

/// On-disk header size; the header struct is smaller, the remainder is zeros.
pub const HEADER_DISK_SIZE: usize = 512;

/// Size of one tree entry on disk: four `f32` bounds and a `u64` index.
pub const ENTRY_SIZE: usize = 24;

/// `a / b` rounded up.
pub open spec fn ceil_div(a: nat, b: nat) -> nat
    recommends
        b > 0,
{
    ((a + b - 1) / (b as int)) as nat
}

/// The number of entries per level of a tree over `num_items` leaves: the
/// leaves, then each level a `node_size`-th of the one below (rounded up),
/// until a level fits in one node.
pub open spec fn level_lens_ok(lens: Seq<usize>, num_items: nat, node_size: nat) -> bool {
    &&& lens.len() >= 1
    &&& lens[0] == num_items
    &&& lens.last() <= node_size
    &&& forall|i: int| 0 <= i < lens.len() - 1 ==> #[trigger] lens[i] > node_size && lens[i + 1] == ceil_div(
        lens[i] as nat,
        node_size,
    )
}

proof fn lemma_ceil_div_shrinks(a: nat, b: nat)
    requires
        b >= 2,
        a > b,
    ensures
        1 <= ceil_div(a, b) < a,
{
    assert(1 <= (a + b - 1) / (b as int) < a) by (nonlinear_arith)
        requires
            b >= 2,
            a > b,
    ;
}

/// The number of entries on each level of a tree over `num_items` leaves
/// with `node_size` children per node (see [`level_lens_ok`]).
pub fn compute_level_lens(num_items: usize, node_size: usize) -> (lens: Vec<usize>)
    requires
        node_size >= 2,
    ensures
        level_lens_ok(lens@, num_items as nat, node_size as nat),
{
    let mut lens: Vec<usize> = Vec::new();
    lens.push(num_items);
    let mut last = num_items;
    while last > node_size
        invariant
            node_size >= 2,
            lens@.len() >= 1,
            lens@[0] == num_items,
            lens@.last() == last,
            forall|i: int| 0 <= i < lens@.len() - 1 ==> #[trigger] lens@[i] > node_size && lens@[i + 1]
                == ceil_div(lens@[i] as nat, node_size as nat),
        decreases last,
    {
        proof {
            lemma_ceil_div_shrinks(last as nat, node_size as nat);
            assert(last / node_size < last) by (nonlinear_arith)
                requires
                    node_size >= 2,
                    last > node_size,
            ;
        }
        let next = last / node_size + if last % node_size != 0 {
            1usize
        } else {
            0usize
        };
        proof {
            assert(next == ceil_div(last as nat, node_size as nat)) by (nonlinear_arith)
                requires
                    node_size >= 2,
                    next == last / node_size + if last % node_size != 0 {
                        1int
                    } else {
                        0int
                    },
            ;
        }
        let ghost before = lens@;
        lens.push(next);
        proof {
            assert forall|i: int| 0 <= i < lens@.len() - 1 implies #[trigger] lens@[i] > node_size && lens@[i + 1]
                == ceil_div(lens@[i] as nat, node_size as nat) by {
                if i < before.len() - 1 {
                    assert(lens@[i] == before[i] && lens@[i + 1] == before[i + 1]);
                }
            }
        }
        last = next;
    }
    lens
}

/// The sum of `s`.
pub open spec fn sum(s: Seq<usize>) -> nat
    decreases s.len(),
{
    if s.len() == 0 {
        0
    } else {
        sum(s.drop_last()) + s.last() as nat
    }
}

/// The byte offset of level `i` in the file: after the header and the
/// entries of all lower levels.
pub open spec fn level_offset(lens: Seq<usize>, i: int) -> nat {
    HEADER_DISK_SIZE as nat + ENTRY_SIZE as nat * sum(lens.take(i))
}

/// Where each level starts and how long the file is, for a tree with the
/// given level lengths: `None` when the tree has more than `MAX_LEVELS`
/// levels or the file would not fit in memory.
pub fn level_offsets(lens: &Vec<usize>) -> (r: Option<([u64; 16], usize)>)
    ensures
        match r {
            Some((offsets, file_size)) => {
                &&& lens@.len() <= MAX_LEVELS
                &&& file_size == level_offset(lens@, lens@.len() as int)
                &&& forall|i: int| 0 <= i < lens@.len() ==> offsets@[i] == level_offset(lens@, i)
                &&& forall|i: int| lens@.len() <= i < MAX_LEVELS ==> offsets@[i] == 0
            },
            None => lens@.len() > MAX_LEVELS || level_offset(lens@, lens@.len() as int) > usize::MAX,
        },
{
    if lens.len() > MAX_LEVELS {
        return None;
    }
    let mut offsets = [0u64; 16];
    let mut off: usize = HEADER_DISK_SIZE;
    let mut i: usize = 0;
    proof {
        assert(lens@.take(0) =~= Seq::<usize>::empty());
    }
    while i < lens.len()
        invariant
            lens@.len() <= MAX_LEVELS,
            i <= lens@.len(),
            off == level_offset(lens@, i as int),
            forall|j: int| 0 <= j < i ==> offsets@[j] == level_offset(lens@, j),
            forall|j: int| i <= j < MAX_LEVELS ==> offsets@[j] == 0,
        decreases lens@.len() - i,
    {
        offsets[i] = off as u64;
        proof {
            assert(lens@.take(i + 1).drop_last() =~= lens@.take(i as int));
            assert(lens@.take(i + 1).last() == lens@[i as int]);
        }
        let len = lens[i];
        if len > (usize::MAX - off) / ENTRY_SIZE {
            proof {
                lemma_offset_grows(lens@, i + 1, lens@.len() as int);
                assert(level_offset(lens@, i + 1) > usize::MAX) by (nonlinear_arith)
                    requires
                        len > (usize::MAX - off) / 24,
                        level_offset(lens@, i + 1) == off + 24 * len,
                        off <= usize::MAX,
                ;
            }
            return None;
        }
        proof {
            assert(off + 24 * len <= usize::MAX) by (nonlinear_arith)
                requires
                    len <= (usize::MAX - off) / 24,
                    off <= usize::MAX,
            ;
        }
        off = off + len * ENTRY_SIZE;
        i = i + 1;
    }
    Some((offsets, off))
}

proof fn lemma_offset_grows(lens: Seq<usize>, i: int, j: int)
    requires
        0 <= i <= j <= lens.len(),
    ensures
        level_offset(lens, i) <= level_offset(lens, j),
    decreases j - i,
{
    if i < j {
        lemma_offset_grows(lens, i, j - 1);
        assert(lens.take(j).drop_last() =~= lens.take(j - 1));
    }
}

/// What a reader finds wrong with a spatial index file's header.
#[derive(Copy, Clone, Debug, PartialEq, Eq, Structural)]
pub enum SpatialHeaderError {
    /// The magic number or the version differs.
    BadHeader,
    /// The tree claims more than `MAX_LEVELS` levels.
    InvalidNumLevels,
    /// A level does not start at an entry boundary after the header.
    BadLevelOffset,
}

/// The index of the first entry of each level, read from a header's level
/// offsets; `None` when an offset lies in the header or off an entry boundary.
pub open spec fn level_start(offset: u64) -> Option<usize> {
    if offset < HEADER_DISK_SIZE || (offset - HEADER_DISK_SIZE) % (ENTRY_SIZE as int) != 0 || offset > usize::MAX {
        None
    } else {
        Some(((offset - HEADER_DISK_SIZE) / (ENTRY_SIZE as int)) as usize)
    }
}

/// Entry `j` of `starts` is the first entry of level `j` given by `offsets`.
pub open spec fn starts_at(offsets: Seq<u64>, starts: Seq<usize>, j: int) -> bool {
    level_start(offsets[j]) matches Some(s) && starts[j] == s
}

/// Reads the header of a spatial index file: the magic number and version
/// must match, there are at most `MAX_LEVELS` levels, and each level's offset
/// must lie on an entry boundary after the header. Gives the first entry of
/// each level.
pub fn read_level_starts(magic: u64, version: u32, num_levels: u32, offsets: &[u64; 16]) -> (r: Result<
    [usize; 16],
    SpatialHeaderError,
>)
    ensures
        magic != MAGIC || version != VERSION ==> r == Err::<[usize; 16], _>(SpatialHeaderError::BadHeader),
        magic == MAGIC && version == VERSION && num_levels > MAX_LEVELS ==> r == Err::<[usize; 16], _>(
            SpatialHeaderError::InvalidNumLevels,
        ),
        magic == MAGIC && version == VERSION && num_levels <= MAX_LEVELS ==> match r {
            Ok(starts) => (forall|i: int| 0 <= i < num_levels ==> #[trigger] starts_at(offsets@, starts@, i))
                && (forall|i: int| num_levels <= i < MAX_LEVELS ==> starts@[i] == 0),
            Err(e) => e == SpatialHeaderError::BadLevelOffset && exists|i: int|
                0 <= i < num_levels && level_start(#[trigger] offsets@[i]) is None,
        },
{
    if magic != MAGIC || version != VERSION {
        return Err(SpatialHeaderError::BadHeader);
    }
    let n = num_levels as usize;
    if n > MAX_LEVELS {
        return Err(SpatialHeaderError::InvalidNumLevels);
    }
    let mut starts = [0usize; 16];
    let mut i: usize = 0;
    while i < n
        invariant
            magic == MAGIC && version == VERSION,
            n == num_levels,
            n <= MAX_LEVELS,
            i <= n,
            forall|j: int| 0 <= j < i ==> #[trigger] starts_at(offsets@, starts@, j),
            forall|j: int| i <= j < MAX_LEVELS ==> starts@[j] == 0,
        decreases n - i,
    {
        let off = offsets[i];
        if off < HEADER_DISK_SIZE as u64 || (off - HEADER_DISK_SIZE as u64) % ENTRY_SIZE as u64 != 0
            || off > usize::MAX as u64 {
            proof {
                assert(level_start(offsets@[i as int]) is None);
            }
            return Err(SpatialHeaderError::BadLevelOffset);
        }
        let ghost prev = starts@;
        let v = ((off - HEADER_DISK_SIZE as u64) / ENTRY_SIZE as u64) as usize;
        starts[i] = v;
        proof {
            assert(level_start(off) == Some(v));
            assert(starts@ == prev.update(i as int, v));
            assert forall|j: int| 0 <= j < i + 1 implies #[trigger] starts_at(offsets@, starts@, j) by {
                if j < i {
                    assert(starts_at(offsets@, prev, j));
                    assert(starts@[j] == prev[j]);
                }
            }
        }
        i = i + 1;
    }
    Ok(starts)
}

/// The number of entries of a level: up to the next level's first entry, or
/// to the end of the `total` entries for the last level.
pub fn level_len(starts: &[usize; 16], num_levels: usize, total: usize, level: usize) -> (r: usize)
    requires
        level < num_levels <= MAX_LEVELS,
        level + 1 < num_levels ==> starts@[level as int] <= starts@[level + 1],
        level + 1 >= num_levels ==> starts@[level as int] <= total,
    ensures
        level + 1 < num_levels ==> r == starts@[level + 1] - starts@[level as int],
        level + 1 >= num_levels ==> r == total - starts@[level as int],
{
    if level + 1 < num_levels {
        starts[level + 1] - starts[level]
    } else {
        total - starts[level]
    }
}

/// Builds a packed R-tree using external merge sort.
#[derive(Copy, Clone, Debug, PartialEq, Eq, Structural)]
pub struct SpatialIndexBuilder {
    node_size: u32,
    chunk_size: usize,
}

impl SpatialIndexBuilder {
    /// The branching factor of the tree.
    pub closed spec fn node_size_spec(self) -> u32 {
        self.node_size
    }

    /// How many items are sorted in memory at once.
    pub closed spec fn chunk_size_spec(self) -> usize {
        self.chunk_size
    }

    /// A builder with the default branching factor and chunk size.
    pub fn new() -> (r: Self)
        ensures
            r.node_size_spec() == DEFAULT_NODE_SIZE,
            r.chunk_size_spec() == DEFAULT_CHUNK_SIZE,
    {
        Self::with_options(DEFAULT_NODE_SIZE, DEFAULT_CHUNK_SIZE)
    }

    /// A builder with the given branching factor (at least 2) and chunk size
    /// (at least 1).
    pub fn with_options(node_size: u32, chunk_size: usize) -> (r: Self)
        requires
            node_size >= 2,
            chunk_size >= 1,
        ensures
            r.node_size_spec() == node_size,
            r.chunk_size_spec() == chunk_size,
    {
        SpatialIndexBuilder { node_size, chunk_size }
    }

    pub fn node_size(&self) -> (r: u32)
        ensures
            r == self.node_size_spec(),
    {
        self.node_size
    }

    pub fn chunk_size(&self) -> (r: usize)
        ensures
            r == self.chunk_size_spec(),
    {
        self.chunk_size
    }
}

impl Default for SpatialIndexBuilder {
    fn default() -> (r: Self)
        ensures
            r.node_size_spec() == DEFAULT_NODE_SIZE,
            r.chunk_size_spec() == DEFAULT_CHUNK_SIZE,
    {
        Self::new()
    }
}

} // verus!
