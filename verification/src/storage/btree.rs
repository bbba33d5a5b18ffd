//! The page layout of a B-tree file: fixed-size pages, each starting with a
//! small header, the leaves holding as many key-value pairs as fit.

use std::marker::PhantomData;

use vstd::prelude::*;

verus! {

/// The size of one page of a page file.
pub const PAGE_SIZE: usize = 4096;

/// The size of a page header: a magic word, flags and the entry count.
pub const HEADER_SIZE: usize = 8;

/// The magic word of the first page of a B-tree file.
pub const MAGIC_WORD: u32 = 0x698d4cd4;

/// The page header flag of a leaf page.
pub const FLAG_LEAF: u16 = 0x01;

/// What every B-tree of keys `K` and values `V` shares: the sizes that fix
/// its page layout.
pub struct BTreeBase<K, V>(PhantomData<(K, V)>);

impl<K, V> BTreeBase<K, V> {
    /// How many key-value pairs fit in a leaf page after its header.
    pub fn max_items_per_leaf() -> (r: usize)
        requires
            0 < vstd::layout::size_of::<K>() + vstd::layout::size_of::<V>() <= usize::MAX,
        ensures
            r == (PAGE_SIZE - HEADER_SIZE) as nat / (vstd::layout::size_of::<K>() + vstd::layout::size_of::<V>()),
    {
        let entry = core::mem::size_of::<K>() + core::mem::size_of::<V>();
        (PAGE_SIZE - HEADER_SIZE) / entry
    }
}

} // verus!
