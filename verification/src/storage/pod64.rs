//! Plain 64-bit values stored in a table.

use vstd::prelude::*;

use crate::storage::header::{SimpleHeader, TableData, TablePod, Versioned};

verus! {

/// A plain `u64` value stored in a table file.
///
/// Used for temp files that carry a flat array of raw indices or offsets
/// (e.g. `node_refs.bin`, `node_ref_offsets.bin`).
#[derive(Copy, Clone, Debug, Default, PartialEq, Eq, PartialOrd, Ord, Structural)]
pub struct Pod64(pub u64);

impl TablePod for Pod64 {}

impl TableData for Pod64 {
    type Header = SimpleHeader<Pod64>;
}

impl Versioned for Pod64 {
    const VERSION: u32 = 1;
}

} // verus!
