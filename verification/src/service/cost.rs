//! Edge and turn costs of the road graph under a vehicle profile.

use vstd::prelude::*;

use crate::service::profile::{Profile, VehicleType};
use crate::service::speed_config::SpeedConfig;
use crate::storage::attrib::{HighwayClass, TurnFlags, WayFlags};
use crate::storage::edge_node::EdgeNode;
use crate::storage::turn_edge::TurnEdge;
use crate::storage::way::Way;
use crate::types::country::CountryId;

verus! {

/// Costs in metres: every passable edge costs its length and turns are free.
#[derive(Copy, Clone, Debug)]
pub struct DistanceCost {
    pub vehicle_type: VehicleType,
}

/// What a search pays: for traversing the edge represented by an edge node,
/// and for turning from one edge node into the next. `None` means blocked.
pub trait CostModel {
    /// The cost of traversing `dist_m` metres of the edge `en` on `way`.
    spec fn traversal_spec(&self, dist_m: usize, en: EdgeNode, way: Way) -> Option<usize>;

    /// The cost of the turn `te`.
    spec fn turn_spec(&self, te: TurnEdge) -> Option<usize>;

    /// Traversal cost for given length of the edge represented by `en`.
    /// Returns `None` if blocked.
    fn traversal_cost(&self, dist_m: usize, en: &EdgeNode, way: &Way) -> (r: Option<usize>)
        ensures
            r == self.traversal_spec(dist_m, *en, *way),
    ;

    /// Turn cost at the shared intersection. Returns `None` if the turn is
    /// forbidden.
    fn turn_cost(&self, te: &TurnEdge) -> (r: Option<usize>)
        ensures
            r == self.turn_spec(*te),
    ;
}

/// A turn's cost plus the traversal of a whole edge node stays within `usize`.
pub open spec fn costs_fit<C: CostModel>(c: C) -> bool {
    forall|te: TurnEdge, en: EdgeNode, way: Way|
        #![trigger c.turn_spec(te), c.traversal_spec(en.dist_m as usize, en, way)]
        (c.turn_spec(te) is Some && c.traversal_spec(en.dist_m as usize, en, way) is Some) ==> c.turn_spec(
            te,
        )->0 + c.traversal_spec(en.dist_m as usize, en, way)->0 <= usize::MAX
}

impl CostModel for DistanceCost {
    /// The length itself, or `None` when the way blocks the vehicle.
    open spec fn traversal_spec(&self, dist_m: usize, en: EdgeNode, way: Way) -> Option<usize> {
        if way.access.blocks_spec(self.vehicle_type.access_vehicle_spec()) {
            None
        } else {
            Some(dist_m)
        }
    }

    /// Free, or `None` when a turn restriction forbids it for the vehicle.
    open spec fn turn_spec(&self, te: TurnEdge) -> Option<usize> {
        if te.restriction_mask.blocks_spec(self.vehicle_type.access_vehicle_spec()) {
            None
        } else {
            Some(0usize)
        }
    }

    fn traversal_cost(&self, dist_m: usize, en: &EdgeNode, way: &Way) -> (r: Option<usize>) {
        if way.access.blocks(self.vehicle_type.access_vehicle()) {
            return None;
        }
        Some(dist_m)
    }

    fn turn_cost(&self, te: &TurnEdge) -> (r: Option<usize>) {
        if te.restriction_mask.blocks(self.vehicle_type.access_vehicle()) {
            return None;
        }
        Some(0)
    }
}

/// Distance costs of whole edge nodes never overflow: turns are free and an
/// edge node is at most `u32::MAX` metres long.
pub proof fn lemma_distance_costs_fit(c: DistanceCost)
    ensures
        costs_fit(c),
{
}

/// Costs in milliseconds of travel time under a profile and the configured
/// speed overrides.
#[derive(Copy, Clone)]
pub struct SpeedMap<'p> {
    pub profile: &'p Profile,
    pub speed_config: &'p SpeedConfig,
    pub avoid_toll: bool,
    pub avoid_ferry: bool,
}

/// The speed of an edge, given the configured override for its country (0 =
/// none), the profile and the way: `None` when the class or the surface is
/// closed to the profile, else the tagged speed (the class default when
/// untagged) capped at the profile's maximum and scaled by the surface
/// percentage, at least 1.
pub open spec fn effective_speed_spec(configured: u8, profile: Profile, way: Way) -> Option<u8> {
    let default = if configured > 0 {
        configured
    } else {
        profile.speed_table@[way.highway.index_spec() as int]
    };
    let tagged = if way.max_speed > 0 {
        way.max_speed
    } else {
        default
    };
    let speed = if tagged < profile.max_speed_kmh {
        tagged
    } else {
        profile.max_speed_kmh
    };
    let pct = profile.surface_pct@[way.surface_quality.index_spec() as int];
    if default == 0 || pct == 0 {
        None
    } else {
        let scaled = speed as u32 * pct as u32 / 100;
        Some((if scaled > 1 { scaled } else { 1 }) as u8)
    }
}

/// The fixed penalty of entering a way, or `None` when the request avoids it:
/// the profile's toll penalty on tolled ways and its ferry penalty on ferries.
pub open spec fn way_penalty_spec(profile: Profile, avoid_toll: bool, avoid_ferry: bool, way: Way) -> Option<nat> {
    let toll = way.flags.0 & WayFlags::TOLL == WayFlags::TOLL;
    let ferry = way.highway == HighwayClass::Ferry;
    if (toll && avoid_toll) || (ferry && avoid_ferry) {
        None
    } else {
        Some(
            (if toll {
                profile.toll_penalty_ms as nat
            } else {
                0
            }) + (if ferry {
                profile.ferry_penalty_ms as nat
            } else {
                0
            }),
        )
    }
}

/// A posted speed limit wins over every default, configured or built in: on
/// a way tagged with a maximum speed the speed is that limit, capped at the
/// profile's maximum and scaled by the surface percentage (at least 1), and
/// two configurations that both leave the way open give the same speed.
pub proof fn lemma_tagged_speed_wins(configured: u8, other: u8, profile: Profile, way: Way)
    requires
        way.max_speed > 0,
    ensures
        effective_speed_spec(configured, profile, way) matches Some(s) ==> s == ({
            let capped = if way.max_speed < profile.max_speed_kmh {
                way.max_speed
            } else {
                profile.max_speed_kmh
            };
            let scaled = capped as u32 * profile.surface_pct@[way.surface_quality.index_spec() as int] as u32 / 100;
            (if scaled > 1 { scaled } else { 1 }) as u8
        }),
        effective_speed_spec(configured, profile, way) is Some && effective_speed_spec(other, profile, way) is Some
            ==> effective_speed_spec(configured, profile, way) == effective_speed_spec(other, profile, way),
{
}

impl<'p> SpeedMap<'p> {
    /// The speed in km/h at which the profile travels along an edge of `way`.
    pub fn effective_speed(&self, en: &EdgeNode, way: &Way) -> (r: Option<u8>)
        requires
            en.country_id.0 < CountryId::COUNT,
        ensures
            r == effective_speed_spec(
                self.speed_config.speed_at(
                    en.country_id.0 as int,
                    self.profile.vehicle_type.index_spec() as int,
                    way.highway.index_spec() as int,
                ),
                *self.profile,
                *way,
            ),
    {
        let default = match self.speed_config.default_speed(
            en.country_id,
            self.profile.vehicle_type,
            way.highway,
        ) {
            Some(s) => s,
            None => self.profile.default_speed(way.highway),
        };
        if default == 0 {
            return None;
        }
        let tag_speed = way.max_speed;
        let tagged = if tag_speed > 0 {
            tag_speed
        } else {
            default
        };
        let speed = if tagged < self.profile.max_speed_kmh {
            tagged
        } else {
            self.profile.max_speed_kmh
        };
        let surface_pct = self.profile.surface_pct[way.surface_quality.index()];
        if surface_pct == 0 {
            return None;
        }
        proof {
            assert(speed as u32 * surface_pct as u32 <= 255 * 255) by (nonlinear_arith)
                requires
                    speed <= 255,
                    surface_pct <= 255,
            ;
        }
        let scaled = speed as u32 * surface_pct as u32 / 100;
        Some(#[verifier::truncate] ((if scaled > 1 { scaled } else { 1 }) as u8))
    }

    /// The parts of the cost of traversing an edge that need no floating
    /// point: the speed at which it is travelled and the fixed penalties of
    /// its way. `None` when the edge cannot be used: the way blocks the vehicle
    /// by access or dimensions, is a toll road or ferry that the request
    /// avoids, or has no speed for the profile. The travel time of
    /// `dist_m * 3600 / speed` milliseconds is added to the penalty by the caller.
    pub fn traversal_terms(&self, en: &EdgeNode, way: &Way) -> (r: Option<(u8, usize)>)
        requires
            en.country_id.0 < CountryId::COUNT,
            self.profile.toll_penalty_ms + self.profile.ferry_penalty_ms <= usize::MAX,
        ensures
            ({
                let p = *self.profile;
                let blocked = way.access.blocks_spec(p.vehicle_type.access_vehicle_spec())
                    || way.dim.blocks_spec(
                    p.vehicle_dim.height_dm,
                    p.vehicle_dim.width_dm,
                    p.vehicle_dim.weight_250kg,
                );
                let speed = effective_speed_spec(
                    self.speed_config.speed_at(
                        en.country_id.0 as int,
                        p.vehicle_type.index_spec() as int,
                        way.highway.index_spec() as int,
                    ),
                    p,
                    *way,
                );
                let penalty = way_penalty_spec(p, self.avoid_toll, self.avoid_ferry, *way);
                if blocked || penalty is None || speed is None {
                    r is None
                } else {
                    r matches Some((s, pen)) && s == speed->0 && pen == penalty->0
                }
            }),
    {
        let profile = self.profile;
        if way.access.blocks(profile.vehicle_type.access_vehicle()) {
            return None;
        }
        if way.dim.blocks_vehicle(
            profile.vehicle_dim.height_dm,
            profile.vehicle_dim.width_dm,
            profile.vehicle_dim.weight_250kg,
        ) {
            return None;
        }
        let toll_ms: usize = if way.flags.contains(WayFlags::TOLL) {
            if self.avoid_toll {
                return None;
            }
            profile.toll_penalty_ms as usize
        } else {
            0
        };
        let ferry_ms: usize = if way.highway == HighwayClass::Ferry {
            if self.avoid_ferry {
                return None;
            }
            profile.ferry_penalty_ms as usize
        } else {
            0
        };
        let speed = match self.effective_speed(en, way) {
            Some(s) => s,
            None => {
                return None;
            },
        };
        Some((speed, toll_ms + ferry_ms))
    }

    /// Turn cost at the shared intersection: the profile's traffic-signal
    /// penalty where the via-node has signals plus its toll penalty at a toll
    /// booth, or `None` when a turn restriction forbids the turn or the
    /// request avoids tolls and the via-node is a toll booth.
    pub fn turn_cost(&self, te: &TurnEdge) -> (r: Option<usize>)
        requires
            self.profile.traffic_signal_penalty_ms + self.profile.toll_penalty_ms <= usize::MAX,
        ensures
            ({
                let p = *self.profile;
                let signals = te.turn_flags.0 & TurnFlags::TRAFFIC_SIGNALS == TurnFlags::TRAFFIC_SIGNALS;
                let toll = te.turn_flags.0 & TurnFlags::TOLL == TurnFlags::TOLL;
                if te.restriction_mask.blocks_spec(p.vehicle_type.access_vehicle_spec()) || (toll
                    && self.avoid_toll) {
                    r is None
                } else {
                    r == Some(
                        ((if signals {
                            p.traffic_signal_penalty_ms as nat
                        } else {
                            0
                        }) + (if toll {
                            p.toll_penalty_ms as nat
                        } else {
                            0
                        })) as usize,
                    )
                }
            }),
    {
        let profile = self.profile;
        if te.restriction_mask.blocks(profile.vehicle_type.access_vehicle()) {
            return None;
        }
        let flags = te.turn_flags;
        let mut cost: usize = 0;
        if flags.contains(TurnFlags::TRAFFIC_SIGNALS) {
            cost = cost + profile.traffic_signal_penalty_ms as usize;
        }
        if flags.contains(TurnFlags::TOLL) {
            if self.avoid_toll {
                return None;
            }
            cost = cost + profile.toll_penalty_ms as usize;
        }
        Some(cost)
    }
}

} // verus!
