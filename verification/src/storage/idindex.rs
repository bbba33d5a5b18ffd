//! Entries of an index from OSM ids to table rows.

use vstd::prelude::*;

use crate::storage::header::{HeaderWithIndex, Item, TableData, TablePod, Versioned};

verus! {

/// One entry: an OSM ID (cast to `u64`) mapped to a row index in the primary
/// table file. Entries are stored in ascending `key` order.
#[derive(Copy, Clone, Debug, Default, PartialEq, Eq, Structural)]
pub struct IdEntry {
    pub key: u64,
    pub idx: u64,
}

impl TablePod for IdEntry {}

impl Item for IdEntry {
    open spec fn key_spec(&self) -> u64 {
        self.key
    }

    fn key(&self) -> (r: u64) {
        self.key
    }
}

impl TableData for IdEntry {
    type Header = HeaderWithIndex<IdEntry>;
}

impl Versioned for IdEntry {
    const VERSION: u32 = 1;
}

} // verus!
