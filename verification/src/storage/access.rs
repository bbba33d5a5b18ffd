//! Per-vehicle access restrictions of ways and turns.

use vstd::prelude::*;

use crate::types::vehicle::VehicleType;

verus! {

/// Bitmask of vehicle types that are **blocked** on a way or turn.
/// `AccessFlags::empty()` means no vehicle is blocked (unrestricted).
#[derive(Copy, Clone, Debug, Default, PartialEq, Eq, Structural)]
pub struct AccessFlags(pub u8);

/// Compatibility alias; prefer `AccessFlags` in new code.
pub type EdgeFlags = AccessFlags;

/// The bit that blocks `vehicle`.
pub open spec fn access_bit_spec(vehicle: VehicleType) -> u8 {
    match vehicle {
        VehicleType::Car => AccessFlags::NO_CAR,
        VehicleType::Hgv => AccessFlags::NO_HGV,
        VehicleType::Bicycle => AccessFlags::NO_BICYCLE,
        VehicleType::Foot => AccessFlags::NO_FOOT,
        VehicleType::Motorcycle => AccessFlags::NO_MOTORCYCLE,
    }
}

impl AccessFlags {
    /// Private cars (passenger vehicles) not allowed.
    pub const NO_CAR: u8 = 0x01;
    /// Motorcycles, mopeds and scooters not allowed.
    pub const NO_MOTORCYCLE: u8 = 0x02;
    /// HGV (heavy goods vehicles) not allowed.
    pub const NO_HGV: u8 = 0x04;
    /// Bicycles not allowed.
    pub const NO_BICYCLE: u8 = 0x08;
    /// Pedestrians not allowed.
    pub const NO_FOOT: u8 = 0x10;
    /// All motor vehicles (cars, motorcycles and HGV) blocked.
    pub const NO_MOTOR: u8 = 0x07;
    /// All vehicle types blocked.
    pub const ALL: u8 = 0x1f;

    pub fn empty() -> (r: Self)
        ensures
            r.0 == 0,
    {
        AccessFlags(0)
    }

    pub fn bits(self) -> (r: u8)
        ensures
            r == self.0,
    {
        self.0
    }

    /// True when every bit of `bits` is set.
    pub fn contains(self, bits: u8) -> (r: bool)
        ensures
            r == (self.0 & bits == bits),
    {
        self.0 & bits == bits
    }

    pub fn union(self, bits: u8) -> (r: Self)
        ensures
            r.0 == self.0 | bits,
    {
        AccessFlags(self.0 | bits)
    }

    /// Clears the bits of `bits`.
    pub fn remove(self, bits: u8) -> (r: Self)
        ensures
            r.0 == self.0 & !bits,
    {
        AccessFlags(self.0 & !bits)
    }

    /// Returns the flag bit that represents a block for `vehicle`.
    pub fn flag_for(vehicle: VehicleType) -> (r: u8)
        ensures
            r == access_bit_spec(vehicle),
    {
        match vehicle {
            VehicleType::Car => Self::NO_CAR,
            VehicleType::Hgv => Self::NO_HGV,
            VehicleType::Bicycle => Self::NO_BICYCLE,
            VehicleType::Foot => Self::NO_FOOT,
            VehicleType::Motorcycle => Self::NO_MOTORCYCLE,
        }
    }

    /// Whether `vehicle` is blocked by this flag set.
    pub open spec fn blocks_spec(self, vehicle: VehicleType) -> bool {
        self.0 & access_bit_spec(vehicle) == access_bit_spec(vehicle)
    }

    /// Returns `true` if `vehicle` is blocked by this flag set.
    pub fn blocks(self, vehicle: VehicleType) -> (r: bool)
        ensures
            r == self.blocks_spec(vehicle),
    {
        self.contains(Self::flag_for(vehicle))
    }

    /// Returns `true` if `vehicle` is allowed (not blocked) by this flag set.
    pub fn allows(self, vehicle: VehicleType) -> (r: bool)
        ensures
            r == !self.blocks_spec(vehicle),
    {
        !self.blocks(vehicle)
    }
}

/// The empty set blocks nobody; `ALL` blocks every vehicle.
pub proof fn lemma_access_extremes(vehicle: VehicleType)
    ensures
        !AccessFlags(0).blocks_spec(vehicle),
        AccessFlags(AccessFlags::ALL).blocks_spec(vehicle),
{
    assert(0u8 & 0x01u8 != 0x01u8) by (bit_vector);
    assert(0u8 & 0x02u8 != 0x02u8) by (bit_vector);
    assert(0u8 & 0x04u8 != 0x04u8) by (bit_vector);
    assert(0u8 & 0x08u8 != 0x08u8) by (bit_vector);
    assert(0u8 & 0x10u8 != 0x10u8) by (bit_vector);
    assert(0x1fu8 & 0x01u8 == 0x01u8) by (bit_vector);
    assert(0x1fu8 & 0x02u8 == 0x02u8) by (bit_vector);
    assert(0x1fu8 & 0x04u8 == 0x04u8) by (bit_vector);
    assert(0x1fu8 & 0x08u8 == 0x08u8) by (bit_vector);
    assert(0x1fu8 & 0x10u8 == 0x10u8) by (bit_vector);
}

} // verus!
