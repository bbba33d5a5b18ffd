//! Vehicle classes used for access-restriction checks.

use vstd::prelude::*;

use crate::text::str_eq;

verus! {

/// Vehicle type used for access-restriction checks.
#[derive(Copy, Clone, Debug, PartialEq, Eq, Structural)]
pub enum VehicleType {
    Car,
    Motorcycle,
    Hgv,
    Bicycle,
    Foot,
}

/// Number of `VehicleType` variants.
pub const VEHICLE_TYPE_COUNT: usize = 5;

/// The canonical name of a vehicle type.
pub open spec fn vehicle_name_spec(v: VehicleType) -> Seq<char> {
    match v {
        VehicleType::Car => "car"@,
        VehicleType::Motorcycle => "motorcycle"@,
        VehicleType::Hgv => "hgv"@,
        VehicleType::Bicycle => "bike"@,
        VehicleType::Foot => "foot"@,
    }
}

/// The vehicle type whose canonical name is `s`, if any.
pub open spec fn vehicle_from_name_spec(s: Seq<char>) -> Option<VehicleType> {
    if s == "car"@ {
        Some(VehicleType::Car)
    } else if s == "motorcycle"@ {
        Some(VehicleType::Motorcycle)
    } else if s == "hgv"@ {
        Some(VehicleType::Hgv)
    } else if s == "bike"@ {
        Some(VehicleType::Bicycle)
    } else if s == "foot"@ {
        Some(VehicleType::Foot)
    } else {
        None
    }
}

impl VehicleType {
    /// The position of the variant in declaration order.
    pub open spec fn index_spec(self) -> nat {
        match self {
            VehicleType::Car => 0,
            VehicleType::Motorcycle => 1,
            VehicleType::Hgv => 2,
            VehicleType::Bicycle => 3,
            VehicleType::Foot => 4,
        }
    }

    pub fn index(self) -> (r: usize)
        ensures
            r == self.index_spec(),
            r < VEHICLE_TYPE_COUNT,
    {
        match self {
            VehicleType::Car => 0,
            VehicleType::Motorcycle => 1,
            VehicleType::Hgv => 2,
            VehicleType::Bicycle => 3,
            VehicleType::Foot => 4,
        }
    }

    pub fn name(self) -> (r: &'static str)
        ensures
            r@ == vehicle_name_spec(self),
    {
        match self {
            VehicleType::Car => "car",
            VehicleType::Motorcycle => "motorcycle",
            VehicleType::Hgv => "hgv",
            VehicleType::Bicycle => "bike",
            VehicleType::Foot => "foot",
        }
    }

    pub fn from_name(s: &str) -> (r: Option<Self>)
        ensures
            r == vehicle_from_name_spec(s@),
    {
        if str_eq(s, "car") {
            Some(VehicleType::Car)
        } else if str_eq(s, "motorcycle") {
            Some(VehicleType::Motorcycle)
        } else if str_eq(s, "hgv") {
            Some(VehicleType::Hgv)
        } else if str_eq(s, "bike") {
            Some(VehicleType::Bicycle)
        } else if str_eq(s, "foot") {
            Some(VehicleType::Foot)
        } else {
            None
        }
    }
}

/// Looking up the name of a vehicle type gives back that vehicle type.
pub proof fn lemma_vehicle_name_roundtrip(v: VehicleType)
    ensures
        vehicle_from_name_spec(vehicle_name_spec(v)) == Some(v),
{
    reveal_strlit("car");
    reveal_strlit("motorcycle");
    reveal_strlit("hgv");
    reveal_strlit("bike");
    reveal_strlit("foot");
    assert("car"@.len() == 3);
    assert("hgv"@.len() == 3);
    assert("bike"@.len() == 4);
    assert("foot"@.len() == 4);
    assert("motorcycle"@.len() == 10);
    assert("car"@ != "hgv"@) by { assert("car"@[0] != "hgv"@[0]); }
    assert("bike"@ != "foot"@) by { assert("bike"@[0] != "foot"@[0]); }
}

} // verus!
