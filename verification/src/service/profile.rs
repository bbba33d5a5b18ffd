//! Routing profiles: vehicle characteristics and speed tables.

use vstd::prelude::*;

use crate::storage::attrib::{HighwayClass, SURFACE_QUALITY_COUNT};
use crate::service::error::Error;
use crate::text::{eq_ignore_ascii_case, eq_ignore_ascii_case_spec, str_eq};
use vstd::string::StringExecFns;

verus! {

/// Physical dimensions of a vehicle, used to check against way dimension restrictions.
/// A value of 0 in any field means "this vehicle has no declared dimension" (skip check).
#[derive(Copy, Clone, Debug, Default, PartialEq, Eq, Structural)]
pub struct VehicleDim {
    /// Vehicle height in decimetres (0.1 m). E.g. 40 = 4.0 m.
    pub height_dm: u8,
    /// Vehicle width in decimetres (0.1 m). E.g. 26 = 2.6 m.
    pub width_dm: u8,
    /// Vehicle length in decimetres (0.1 m). E.g. 120 = 12.0 m.
    pub length_dm: u8,
    /// Vehicle weight in units of 250 kg. E.g. 160 = 40 t.
    pub weight_250kg: u8,
}

impl VehicleDim {
    /// The dimensions of a vehicle that declares none.
    pub fn none() -> (r: Self)
        ensures
            r == (VehicleDim { height_dm: 0, width_dm: 0, length_dm: 0, weight_250kg: 0 }),
    {
        VehicleDim { height_dm: 0, width_dm: 0, length_dm: 0, weight_250kg: 0 }
    }
}

/// Vehicle type used for access-restriction checks.
#[derive(Copy, Clone, Debug, PartialEq, Eq, Structural)]
pub enum VehicleType {
    Car,
    Hgv,
    Bicycle,
    Foot,
}

/// The name of a profile's vehicle type.
pub open spec fn profile_vehicle_name_spec(v: VehicleType) -> Seq<char> {
    match v {
        VehicleType::Car => "car"@,
        VehicleType::Hgv => "hgv"@,
        VehicleType::Bicycle => "bike"@,
        VehicleType::Foot => "foot"@,
    }
}

/// The vehicle type a profile name names, if any.
pub open spec fn profile_vehicle_from_name_spec(s: Seq<char>) -> Option<VehicleType> {
    if s == "car"@ {
        Some(VehicleType::Car)
    } else if s == "hgv"@ {
        Some(VehicleType::Hgv)
    } else if s == "bike"@ {
        Some(VehicleType::Bicycle)
    } else if s == "foot"@ {
        Some(VehicleType::Foot)
    } else {
        None
    }
}

impl VehicleType {
    /// Number of `VehicleType` variants.
    pub const COUNT: usize = 4;

    /// The position of the variant in declaration order.
    pub open spec fn index_spec(self) -> nat {
        match self {
            VehicleType::Car => 0,
            VehicleType::Hgv => 1,
            VehicleType::Bicycle => 2,
            VehicleType::Foot => 3,
        }
    }

    pub fn index(self) -> (r: usize)
        ensures
            r == self.index_spec(),
            r < Self::COUNT,
    {
        match self {
            VehicleType::Car => 0,
            VehicleType::Hgv => 1,
            VehicleType::Bicycle => 2,
            VehicleType::Foot => 3,
        }
    }

    pub fn name(self) -> (r: &'static str)
        ensures
            r@ == profile_vehicle_name_spec(self),
    {
        match self {
            VehicleType::Car => "car",
            VehicleType::Hgv => "hgv",
            VehicleType::Bicycle => "bike",
            VehicleType::Foot => "foot",
        }
    }

    pub fn from_name(s: &str) -> (r: Option<Self>)
        ensures
            r == profile_vehicle_from_name_spec(s@),
    {
        if str_eq(s, "car") {
            Some(VehicleType::Car)
        } else if str_eq(s, "hgv") {
            Some(VehicleType::Hgv)
        } else if str_eq(s, "bike") {
            Some(VehicleType::Bicycle)
        } else if str_eq(s, "foot") {
            Some(VehicleType::Foot)
        } else {
            None
        }
    }

    /// The vehicle class whose access bit applies to this profile's vehicles.
    pub open spec fn access_vehicle_spec(self) -> crate::types::vehicle::VehicleType {
        match self {
            VehicleType::Car => crate::types::vehicle::VehicleType::Car,
            VehicleType::Hgv => crate::types::vehicle::VehicleType::Hgv,
            VehicleType::Bicycle => crate::types::vehicle::VehicleType::Bicycle,
            VehicleType::Foot => crate::types::vehicle::VehicleType::Foot,
        }
    }

    pub fn access_vehicle(self) -> (r: crate::types::vehicle::VehicleType)
        ensures
            r == self.access_vehicle_spec(),
    {
        match self {
            VehicleType::Car => crate::types::vehicle::VehicleType::Car,
            VehicleType::Hgv => crate::types::vehicle::VehicleType::Hgv,
            VehicleType::Bicycle => crate::types::vehicle::VehicleType::Bicycle,
            VehicleType::Foot => crate::types::vehicle::VehicleType::Foot,
        }
    }
}

/// A profile checks access as the vehicle of the same name: the access class
/// of each profile vehicle type is the vehicle type that its name names
/// (`hgv` is checked as an HGV, `bike` as a bicycle, and so on).
pub proof fn lemma_access_vehicle_named_alike(v: VehicleType)
    ensures
        crate::types::vehicle::vehicle_from_name_spec(profile_vehicle_name_spec(v)) == Some(v.access_vehicle_spec()),
{
    reveal_strlit("car");
    reveal_strlit("motorcycle");
    reveal_strlit("hgv");
    reveal_strlit("bike");
    reveal_strlit("foot");
        assert("car"@[0] != "hgv"@[0]);
        assert("motorcycle"@.len() != "hgv"@.len());
        assert("car"@.len() != "bike"@.len());
        assert("motorcycle"@.len() != "bike"@.len());
        assert("hgv"@.len() != "bike"@.len());
        assert("car"@.len() != "foot"@.len());
        assert("motorcycle"@.len() != "foot"@.len());
        assert("hgv"@.len() != "foot"@.len());
        assert("bike"@[0] != "foot"@[0]);
}

/// Looking up the name of a profile's vehicle type gives back that type.
pub proof fn lemma_profile_name_roundtrip(v: VehicleType)
    ensures
        profile_vehicle_from_name_spec(profile_vehicle_name_spec(v)) == Some(v),
{
    reveal_strlit("car");
    reveal_strlit("hgv");
    reveal_strlit("bike");
    reveal_strlit("foot");
    assert("car"@ != "hgv"@) by {
        assert("car"@[0] != "hgv"@[0]);
    }
    assert("bike"@ != "foot"@) by {
        assert("bike"@[0] != "foot"@[0]);
    }
    assert("car"@.len() != "bike"@.len());
    assert("hgv"@.len() != "bike"@.len());
    assert("car"@.len() != "foot"@.len());
    assert("hgv"@.len() != "foot"@.len());
}

/// A routing profile: vehicle characteristics and speed table.
pub struct Profile {
    pub name: &'static str,
    pub vehicle_type: VehicleType,
    /// Maximum speed the vehicle is capable of, in km/h.
    pub max_speed_kmh: u8,
    /// Default speed per highway class in km/h (index = the class's position).
    /// A value of 0 means the highway class is forbidden for this vehicle.
    pub speed_table: [u8; 23],
    /// Speed multiplier (0–100 %) per surface quality tier (index = the tier's position).
    /// 0 means the surface is impassable for this vehicle.
    pub surface_pct: [u8; SURFACE_QUALITY_COUNT],
    /// Physical dimensions of the vehicle for dimension-restriction checks.
    /// Fields set to 0 are not checked against way restrictions.
    pub vehicle_dim: VehicleDim,
    /// Extra travel-time cost in milliseconds added when passing through a node with
    /// `TRAFFIC_SIGNALS`. Models the average delay at signalised intersections.
    pub traffic_signal_penalty_ms: u32,
    /// Extra travel-time cost in milliseconds added when traversing a tolled way.
    /// Set to 0 to accept tolls without penalty.
    pub toll_penalty_ms: u32,
    /// Extra travel-time cost in milliseconds added when boarding a ferry.
    /// Models waiting time at the terminal.
    pub ferry_penalty_ms: u32,
}

impl Profile {
    /// Returns the default speed (km/h) for the given highway class.
    pub fn default_speed(&self, highway: HighwayClass) -> (r: u8)
        ensures
            r == self.speed_table@[highway.index_spec() as int],
    {
        let i = highway.index();
        self.speed_table[i]
    }

    /// The `car` profile.
    /// Typical passenger car: width ~1.9 m.
    pub fn car() -> (p: Profile)
        ensures
            p.name@ == "car"@,
            p.vehicle_type == VehicleType::Car,
            p.max_speed_kmh == 130,
            p.speed_table@ == seq![0u8, 110u8, 90u8, 80u8, 60u8, 50u8, 90u8, 70u8, 60u8, 50u8, 40u8, 50u8, 30u8, 10u8, 20u8, 20u8, 40u8, 0u8, 0u8, 0u8, 0u8, 0u8, 5u8],
            p.surface_pct@ == seq![100u8, 100u8, 100u8, 80u8, 60u8, 40u8, 20u8, 0u8],
            p.vehicle_dim == (VehicleDim { height_dm: 0, width_dm: 19, length_dm: 0, weight_250kg: 0 }),
            p.traffic_signal_penalty_ms == 15000,
            p.toll_penalty_ms == 300000,
            p.ferry_penalty_ms == 1800000,
    {
        let p = Profile {
            name: "car",
            vehicle_type: VehicleType::Car,
            max_speed_kmh: 130,
            //  Unk  Mwy  Trk  Pri  Sec  Ter  MLnk TLnk PLnk SLnk TLnk Uncl Res  Liv  Svc  Trk  Rd   Ped  Ftw  Cyc  Path Brdwy Ferry
            speed_table: [0, 110, 90, 80, 60, 50, 90, 70, 60, 50, 40, 50, 30, 10, 20, 20, 40, 0, 0, 0, 0, 0, 5],
            surface_pct: [100, 100, 100, 80, 60, 40, 20, 0],
            vehicle_dim: VehicleDim { height_dm: 0, width_dm: 19, length_dm: 0, weight_250kg: 0 },
            traffic_signal_penalty_ms: 15000,
            toll_penalty_ms: 300000,
            ferry_penalty_ms: 1800000,
        };
        proof {
            assert(p.speed_table@ =~= seq![0u8, 110u8, 90u8, 80u8, 60u8, 50u8, 90u8, 70u8, 60u8, 50u8, 40u8, 50u8, 30u8, 10u8, 20u8, 20u8, 40u8, 0u8, 0u8, 0u8, 0u8, 0u8, 5u8]);
            assert(p.surface_pct@ =~= seq![100u8, 100u8, 100u8, 80u8, 60u8, 40u8, 20u8, 0u8]);
        }
        p
    }

    /// The `hgv` profile.
    /// Typical European HGV: height 4.0 m, width 2.55 m, gross weight 40 t.
    pub fn hgv() -> (p: Profile)
        ensures
            p.name@ == "hgv"@,
            p.vehicle_type == VehicleType::Hgv,
            p.max_speed_kmh == 90,
            p.speed_table@ == seq![0u8, 80u8, 80u8, 70u8, 60u8, 50u8, 70u8, 60u8, 60u8, 50u8, 40u8, 50u8, 30u8, 10u8, 20u8, 20u8, 40u8, 0u8, 0u8, 0u8, 0u8, 0u8, 5u8],
            p.surface_pct@ == seq![100u8, 100u8, 100u8, 85u8, 60u8, 30u8, 0u8, 0u8],
            p.vehicle_dim == (VehicleDim { height_dm: 40, width_dm: 26, length_dm: 0, weight_250kg: 160 }),
            p.traffic_signal_penalty_ms == 20000,
            p.toll_penalty_ms == 300000,
            p.ferry_penalty_ms == 1800000,
    {
        let p = Profile {
            name: "hgv",
            vehicle_type: VehicleType::Hgv,
            max_speed_kmh: 90,
            //  Unk  Mwy  Trk  Pri  Sec  Ter  MLnk TLnk PLnk SLnk TLnk Uncl Res  Liv  Svc  Trk  Rd   Ped  Ftw  Cyc  Path Brdwy Ferry
            speed_table: [0, 80, 80, 70, 60, 50, 70, 60, 60, 50, 40, 50, 30, 10, 20, 20, 40, 0, 0, 0, 0, 0, 5],
            surface_pct: [100, 100, 100, 85, 60, 30, 0, 0],
            vehicle_dim: VehicleDim { height_dm: 40, width_dm: 26, length_dm: 0, weight_250kg: 160 },
            traffic_signal_penalty_ms: 20000,
            toll_penalty_ms: 300000,
            ferry_penalty_ms: 1800000,
        };
        proof {
            assert(p.speed_table@ =~= seq![0u8, 80u8, 80u8, 70u8, 60u8, 50u8, 70u8, 60u8, 60u8, 50u8, 40u8, 50u8, 30u8, 10u8, 20u8, 20u8, 40u8, 0u8, 0u8, 0u8, 0u8, 0u8, 5u8]);
            assert(p.surface_pct@ =~= seq![100u8, 100u8, 100u8, 85u8, 60u8, 30u8, 0u8, 0u8]);
        }
        p
    }

    /// The `bike` profile.
    /// Typical bicycle: width ~0.6 m (handlebars).
    pub fn bike() -> (p: Profile)
        ensures
            p.name@ == "bike"@,
            p.vehicle_type == VehicleType::Bicycle,
            p.max_speed_kmh == 25,
            p.speed_table@ == seq![0u8, 0u8, 0u8, 15u8, 18u8, 18u8, 0u8, 0u8, 15u8, 18u8, 18u8, 16u8, 16u8, 10u8, 12u8, 8u8, 16u8, 6u8, 6u8, 20u8, 10u8, 4u8, 5u8],
            p.surface_pct@ == seq![100u8, 100u8, 95u8, 85u8, 70u8, 50u8, 30u8, 0u8],
            p.vehicle_dim == (VehicleDim { height_dm: 0, width_dm: 6, length_dm: 0, weight_250kg: 0 }),
            p.traffic_signal_penalty_ms == 10000,
            p.toll_penalty_ms == 0,
            p.ferry_penalty_ms == 1800000,
    {
        let p = Profile {
            name: "bike",
            vehicle_type: VehicleType::Bicycle,
            max_speed_kmh: 25,
            //  Unk  Mwy  Trk  Pri  Sec  Ter  MLnk TLnk PLnk SLnk TLnk Uncl Res  Liv  Svc  Trk  Rd   Ped  Ftw  Cyc  Path Brdwy Ferry
            speed_table: [0, 0, 0, 15, 18, 18, 0, 0, 15, 18, 18, 16, 16, 10, 12, 8, 16, 6, 6, 20, 10, 4, 5],
            surface_pct: [100, 100, 95, 85, 70, 50, 30, 0],
            vehicle_dim: VehicleDim { height_dm: 0, width_dm: 6, length_dm: 0, weight_250kg: 0 },
            traffic_signal_penalty_ms: 10000,
            toll_penalty_ms: 0,
            ferry_penalty_ms: 1800000,
        };
        proof {
            assert(p.speed_table@ =~= seq![0u8, 0u8, 0u8, 15u8, 18u8, 18u8, 0u8, 0u8, 15u8, 18u8, 18u8, 16u8, 16u8, 10u8, 12u8, 8u8, 16u8, 6u8, 6u8, 20u8, 10u8, 4u8, 5u8]);
            assert(p.surface_pct@ =~= seq![100u8, 100u8, 95u8, 85u8, 70u8, 50u8, 30u8, 0u8]);
        }
        p
    }

    /// The `foot` profile.
    pub fn foot() -> (p: Profile)
        ensures
            p.name@ == "foot"@,
            p.vehicle_type == VehicleType::Foot,
            p.max_speed_kmh == 6,
            p.speed_table@ == seq![0u8, 0u8, 0u8, 5u8, 5u8, 5u8, 0u8, 0u8, 5u8, 5u8, 5u8, 5u8, 5u8, 4u8, 4u8, 3u8, 5u8, 5u8, 5u8, 4u8, 5u8, 4u8, 5u8],
            p.surface_pct@ == seq![100u8, 100u8, 100u8, 95u8, 85u8, 75u8, 60u8, 0u8],
            p.vehicle_dim == (VehicleDim { height_dm: 0, width_dm: 0, length_dm: 0, weight_250kg: 0 }),
            p.traffic_signal_penalty_ms == 5000,
            p.toll_penalty_ms == 0,
            p.ferry_penalty_ms == 1200000,
    {
        let p = Profile {
            name: "foot",
            vehicle_type: VehicleType::Foot,
            max_speed_kmh: 6,
            //  Unk  Mwy  Trk  Pri  Sec  Ter  MLnk TLnk PLnk SLnk TLnk Uncl Res  Liv  Svc  Trk  Rd   Ped  Ftw  Cyc  Path Brdwy Ferry
            speed_table: [0, 0, 0, 5, 5, 5, 0, 0, 5, 5, 5, 5, 5, 4, 4, 3, 5, 5, 5, 4, 5, 4, 5],
            surface_pct: [100, 100, 100, 95, 85, 75, 60, 0],
            vehicle_dim: VehicleDim { height_dm: 0, width_dm: 0, length_dm: 0, weight_250kg: 0 },
            traffic_signal_penalty_ms: 5000,
            toll_penalty_ms: 0,
            ferry_penalty_ms: 1200000,
        };
        proof {
            assert(p.speed_table@ =~= seq![0u8, 0u8, 0u8, 5u8, 5u8, 5u8, 0u8, 0u8, 5u8, 5u8, 5u8, 5u8, 5u8, 4u8, 4u8, 3u8, 5u8, 5u8, 5u8, 4u8, 5u8, 4u8, 5u8]);
            assert(p.surface_pct@ =~= seq![100u8, 100u8, 100u8, 95u8, 85u8, 75u8, 60u8, 0u8]);
        }
        p
    }

}

/// The built-in profiles, in order: car, hgv, bike, foot.
pub fn profiles() -> (r: Vec<Profile>)
    ensures
        r@.len() == 4,
        r@[0].name@ == "car"@,
        r@[1].name@ == "hgv"@,
        r@[2].name@ == "bike"@,
        r@[3].name@ == "foot"@,
{
    let mut v = Vec::new();
    v.push(Profile::car());
    v.push(Profile::hgv());
    v.push(Profile::bike());
    v.push(Profile::foot());
    v
}

/// The default profile: the first one, or `NoProfilesAvailable` when there
/// are none.
pub fn default_profile(profiles: &[Profile]) -> (r: Result<&Profile, Error>)
    ensures
        profiles@.len() > 0 ==> (r matches Ok(p) && *p == profiles@[0]),
        profiles@.len() == 0 ==> r matches Err(Error::NoProfilesAvailable),
{
    if profiles.len() > 0 {
        Ok(&profiles[0])
    } else {
        Err(Error::NoProfilesAvailable)
    }
}

/// The first profile whose name equals `name`, ignoring the case of ASCII
/// letters; `UnknownProfile(name)` when none does.
pub fn get_profile<'a>(profiles: &'a [Profile], name: &str) -> (r: Result<&'a Profile, Error>)
    ensures
        match r {
            Ok(p) => exists|i: int|
                0 <= i < profiles@.len() && *p == profiles@[i] && eq_ignore_ascii_case_spec(
                    profiles@[i].name@,
                    name@,
                ) && forall|j: int|
                    0 <= j < i ==> !eq_ignore_ascii_case_spec(#[trigger] profiles@[j].name@, name@),
            Err(e) => (e matches Error::UnknownProfile(s) && s@ == name@) && forall|j: int|
                0 <= j < profiles@.len() ==> !eq_ignore_ascii_case_spec(#[trigger] profiles@[j].name@, name@),
        },
{
    let mut i: usize = 0;
    while i < profiles.len()
        invariant
            i <= profiles@.len(),
            forall|j: int| 0 <= j < i ==> !eq_ignore_ascii_case_spec(#[trigger] profiles@[j].name@, name@),
        decreases profiles.len() - i,
    {
        if eq_ignore_ascii_case(profiles[i].name, name) {
            return Ok(&profiles[i]);
        }
        i = i + 1;
    }
    Err(Error::UnknownProfile(String::from_str(name)))
}

/// The named profile when a name is given, else the default profile.
pub fn get_opt_profile<'a>(profiles: &'a [Profile], name: Option<&str>) -> (r: Result<&'a Profile, Error>)
    ensures
        name is None ==> (profiles@.len() > 0 ==> (r matches Ok(p) && *p == profiles@[0])) && (profiles@.len() == 0
            ==> r matches Err(Error::NoProfilesAvailable)),
        name matches Some(n) ==> match r {
            Ok(p) => exists|i: int|
                0 <= i < profiles@.len() && *p == profiles@[i] && eq_ignore_ascii_case_spec(profiles@[i].name@, n@)
                    && forall|j: int|
                    0 <= j < i ==> !eq_ignore_ascii_case_spec(#[trigger] profiles@[j].name@, n@),
            Err(e) => (e matches Error::UnknownProfile(s) && s@ == n@) && forall|j: int|
                0 <= j < profiles@.len() ==> !eq_ignore_ascii_case_spec(#[trigger] profiles@[j].name@, n@),
        },
{
    match name {
        Some(n) => get_profile(profiles, n),
        None => default_profile(profiles),
    }
}

} // verus!
