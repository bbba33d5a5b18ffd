//! Look-ups of way metadata by OSM id.

use vstd::prelude::*;

verus! {

/// Look up meta information for a way by its OSM ID.
#[derive(Copy, Clone, Debug, PartialEq, Eq, Structural)]
pub struct InspectRequest {
    pub way_id: i64,
}

} // verus!
