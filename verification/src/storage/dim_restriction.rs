//! Physical dimension restrictions of ways.

use vstd::prelude::*;

verus! {

/// Physical dimension restriction on a way (height, width, weight).
/// Encoding: 0 in any field means "no restriction".
/// - `max_height_dm`: max height in decimetres (0.1 m). E.g. 40 = 4.0 m.
/// - `max_width_dm`: max width in decimetres (0.1 m). E.g. 25 = 2.5 m.
/// - `max_weight_250kg`: max weight in units of 250 kg. E.g. 30 = 7.5 t.
#[derive(Copy, Clone, Debug, Default, PartialEq, Eq, Hash, Structural)]
pub struct DimRestriction {
    pub max_height_dm: u8,
    pub max_width_dm: u8,
    pub max_weight_250kg: u8,
}

/// Whether a limit `max` (0 = none) is exceeded by a dimension `v` (0 = not checked).
pub open spec fn exceeds(max: u8, v: u8) -> bool {
    max > 0 && v > 0 && v > max
}

impl DimRestriction {
    /// The restriction that limits nothing.
    pub fn none() -> (r: Self)
        ensures
            r.max_height_dm == 0 && r.max_width_dm == 0 && r.max_weight_250kg == 0,
    {
        DimRestriction { max_height_dm: 0, max_width_dm: 0, max_weight_250kg: 0 }
    }

    pub fn is_none(self) -> (r: bool)
        ensures
            r == (self.max_height_dm == 0 && self.max_width_dm == 0 && self.max_weight_250kg == 0),
    {
        self.max_height_dm == 0 && self.max_width_dm == 0 && self.max_weight_250kg == 0
    }

    /// Whether a vehicle with the given dimensions is blocked.
    pub open spec fn blocks_spec(self, height_dm: u8, width_dm: u8, weight_250kg: u8) -> bool {
        exceeds(self.max_height_dm, height_dm) || exceeds(self.max_width_dm, width_dm) || exceeds(
            self.max_weight_250kg,
            weight_250kg,
        )
    }

    /// Returns true if a vehicle with the given dimensions is blocked by this restriction.
    /// Pass 0 for any dimension that should not be checked.
    pub fn blocks_vehicle(self, height_dm: u8, width_dm: u8, weight_250kg: u8) -> (r: bool)
        ensures
            r == self.blocks_spec(height_dm, width_dm, weight_250kg),
    {
        (self.max_height_dm > 0 && height_dm > 0 && height_dm > self.max_height_dm) || (
        self.max_width_dm > 0 && width_dm > 0 && width_dm > self.max_width_dm) || (
        self.max_weight_250kg > 0 && weight_250kg > 0 && weight_250kg > self.max_weight_250kg)
    }
}

/// No restriction blocks anything, and a vehicle that declares no dimension is
/// never blocked.
pub proof fn lemma_unrestricted(d: DimRestriction, h: u8, w: u8, t: u8)
    ensures
        d.is_none_spec() ==> !d.blocks_spec(h, w, t),
        !d.blocks_spec(0, 0, 0),
{
}

impl DimRestriction {
    /// Whether no dimension is limited.
    pub open spec fn is_none_spec(self) -> bool {
        self.max_height_dm == 0 && self.max_width_dm == 0 && self.max_weight_250kg == 0
    }
}

} // verus!
