//! Types shared by the requests and responses of the service.

use vstd::prelude::*;

verus! {

/// Units for distances
#[derive(Copy, Clone, Debug, PartialEq, Eq, Structural)]
pub enum Unit {
    Kilometers,
    Miles,
}

impl Default for Unit {
    fn default() -> (r: Self)
        ensures
            r == Unit::Kilometers,
    {
        Unit::Kilometers
    }
}

} // verus!
