use router::service::profile::{default_profile, get_opt_profile, get_profile, profiles};
use router::polyline::Error as PolylineError;
use router::server::Problem;
use router::service::common::Unit;
use router::service::cost::{CostModel, DistanceCost, SpeedMap};
use router::service::error::Error;
use router::service::info::ServiceStatus;
use router::service::isochrone::IsochroneUnit;
use router::service::meta::{EdgeMeta, WayMeta};
use router::service::profile::{Profile, VehicleDim, VehicleType};
use router::service::speed_config::{country_pattern, profile_pattern, SpeedConfig, SpeedConfigRaw};
use router::storage::access::AccessFlags;
use router::storage::attrib::{HighwayClass, SurfaceQuality, TurnFlags, WayFlags};
use router::storage::dim_restriction::DimRestriction;
use router::storage::edge_node::EdgeNode;
use router::storage::turn_edge::TurnEdge;
use router::storage::way::{Way, WayId};
use router::types::country::CountryId;

fn raw(entries: &[(&str, &str, &str, u8)]) -> SpeedConfigRaw {
    let mut country_speed: Vec<(String, Vec<(String, Vec<(String, u8)>)>)> = Vec::new();
    for &(c, p, h, kmh) in entries {
        country_speed.push((c.to_string(), vec![(p.to_string(), vec![(h.to_string(), kmh)])]));
    }
    SpeedConfigRaw { country_speed }
}

fn de() -> CountryId {
    CountryId::from_iso2("DE")
}

fn fr() -> CountryId {
    CountryId::from_iso2("FR")
}

#[test]
fn profiles_by_name() {
    assert_eq!(VehicleType::from_name("bike"), Some(VehicleType::Bicycle));
    assert_eq!(VehicleType::from_name("Bike"), None);
    assert_eq!(VehicleType::Hgv.name(), "hgv");
    let car = Profile::car();
    assert_eq!(car.name, "car");
    assert_eq!(car.default_speed(HighwayClass::Motorway), 110);
    assert_eq!(car.default_speed(HighwayClass::Footway), 0);
    assert_eq!(Profile::foot().vehicle_type, VehicleType::Foot);
    assert_eq!(VehicleDim::none(), VehicleDim::default());
}

#[test]
fn empty_speed_config_overrides_nothing() {
    let cfg = SpeedConfig::default();
    assert_eq!(cfg.default_speed(de(), VehicleType::Car, HighwayClass::Motorway), None);
    assert_eq!(cfg.default_speed(CountryId(0), VehicleType::Foot, HighwayClass::Ferry), None);
}

#[test]
fn speed_config_sets_named_cells() {
    let cfg = SpeedConfig::try_from(raw(&[("DE", "car", "motorway", 130)])).unwrap();
    assert_eq!(cfg.default_speed(de(), VehicleType::Car, HighwayClass::Motorway), Some(130));
    assert_eq!(cfg.default_speed(de(), VehicleType::Hgv, HighwayClass::Motorway), None);
    assert_eq!(cfg.default_speed(fr(), VehicleType::Car, HighwayClass::Motorway), None);
    assert_eq!(cfg.default_speed(de(), VehicleType::Car, HighwayClass::Trunk), None);
}

#[test]
fn speed_config_specific_beats_wildcard() {
    for entries in [
        [("*", "car", "motorway", 120), ("DE", "car", "motorway", 130)],
        [("DE", "car", "motorway", 130), ("*", "car", "motorway", 120)],
    ] {
        let cfg = SpeedConfig::try_from(raw(&entries)).unwrap();
        assert_eq!(cfg.default_speed(de(), VehicleType::Car, HighwayClass::Motorway), Some(130));
        assert_eq!(cfg.default_speed(fr(), VehicleType::Car, HighwayClass::Motorway), Some(120));
        // the wildcard covers the known countries only
        assert_eq!(cfg.default_speed(CountryId(0), VehicleType::Car, HighwayClass::Motorway), None);
    }
    let cfg = SpeedConfig::try_from(raw(&[("DE", "car", "motorway", 130), ("DE", "*", "motorway", 100)])).unwrap();
    assert_eq!(cfg.default_speed(de(), VehicleType::Car, HighwayClass::Motorway), Some(130));
    assert_eq!(cfg.default_speed(de(), VehicleType::Hgv, HighwayClass::Motorway), Some(100));
    assert_eq!(cfg.default_speed(de(), VehicleType::Foot, HighwayClass::Motorway), Some(100));
}

#[test]
fn speed_config_patterns_ignore_case() {
    let cfg = SpeedConfig::try_from(raw(&[("de", "CAR", "motorway", 125)])).unwrap();
    assert_eq!(cfg.default_speed(de(), VehicleType::Car, HighwayClass::Motorway), Some(125));
    assert_eq!(country_pattern("de", "DE"), Ok(Some(de().0)));
    assert_eq!(country_pattern("*", "*"), Ok(None));
    assert_eq!(profile_pattern("Car", "car"), Ok(Some(VehicleType::Car)));
    assert_eq!(profile_pattern("*", "*"), Ok(None));
}

#[test]
fn speed_config_errors() {
    assert_eq!(SpeedConfig::try_from(raw(&[("ZZ", "car", "motorway", 1)])).err(), Some("unknown country code: ZZ".to_string()));
    assert_eq!(SpeedConfig::try_from(raw(&[("DE", "plane", "motorway", 1)])).err(), Some("unknown profile: plane".to_string()));
    assert_eq!(
        SpeedConfig::try_from(raw(&[("DE", "car", "Motorway", 1)])).err(),
        Some("unknown highway class: Motorway".to_string())
    );
    // the first error in reading order is reported
    assert_eq!(
        SpeedConfig::try_from(raw(&[("DE", "car", "autobahn", 1), ("XX", "car", "motorway", 1)])).err(),
        Some("unknown highway class: autobahn".to_string())
    );
    assert_eq!(country_pattern("zz", "ZZ"), Err("unknown country code: zz".to_string()));
    assert_eq!(profile_pattern("Plane", "plane"), Err("unknown profile: Plane".to_string()));
}

fn way(highway: HighwayClass) -> Way {
    let mut w = Way::new(WayId(1));
    w.highway = highway;
    w
}

fn edge() -> EdgeNode {
    EdgeNode::new(0, 100, CountryId::from_iso2("DE"), 0, 1)
}

#[test]
fn distance_costs() {
    let c = DistanceCost { vehicle_type: VehicleType::Car };
    let mut w = way(HighwayClass::Residential);
    assert_eq!(c.traversal_cost(120, &edge(), &w), Some(120));
    w.access = AccessFlags(AccessFlags::NO_CAR);
    assert_eq!(c.traversal_cost(120, &edge(), &w), None);
    let open = TurnEdge::new(0, 1, 0, AccessFlags(0), TurnFlags(0));
    assert_eq!(c.turn_cost(&open), Some(0));
    let banned = TurnEdge::new(0, 1, 0, AccessFlags(AccessFlags::NO_CAR), TurnFlags(0));
    assert_eq!(c.turn_cost(&banned), None);
    assert_eq!(DistanceCost { vehicle_type: VehicleType::Foot }.turn_cost(&banned), Some(0));
}

#[test]
fn effective_speeds() {
    let car = Profile::car();
    let cfg = SpeedConfig::default();
    let m = SpeedMap { profile: &car, speed_config: &cfg, avoid_toll: false, avoid_ferry: false };
    assert_eq!(m.effective_speed(&edge(), &way(HighwayClass::Residential)), Some(30));
    let mut tagged = way(HighwayClass::Residential);
    tagged.max_speed = 50;
    assert_eq!(m.effective_speed(&edge(), &tagged), Some(50));
    let mut fast = way(HighwayClass::Motorway);
    fast.max_speed = 150;
    assert_eq!(m.effective_speed(&edge(), &fast), Some(130));
    let mut bad = way(HighwayClass::Residential);
    bad.surface_quality = SurfaceQuality::Bad;
    assert_eq!(m.effective_speed(&edge(), &bad), Some(18));
    bad.surface_quality = SurfaceQuality::Impassable;
    assert_eq!(m.effective_speed(&edge(), &bad), None);
    assert_eq!(m.effective_speed(&edge(), &way(HighwayClass::Pedestrian)), None);
    let de_cfg = SpeedConfig::try_from(raw(&[("DE", "car", "residential", 40)])).unwrap();
    let md = SpeedMap { profile: &car, speed_config: &de_cfg, avoid_toll: false, avoid_ferry: false };
    assert_eq!(md.effective_speed(&edge(), &way(HighwayClass::Residential)), Some(40));
}

#[test]
fn traversal_terms() {
    let car = Profile::car();
    let cfg = SpeedConfig::default();
    let m = SpeedMap { profile: &car, speed_config: &cfg, avoid_toll: false, avoid_ferry: false };
    assert_eq!(m.traversal_terms(&edge(), &way(HighwayClass::Residential)), Some((30, 0)));
    let mut toll = way(HighwayClass::Motorway);
    toll.flags = WayFlags(WayFlags::TOLL);
    assert_eq!(m.traversal_terms(&edge(), &toll), Some((110, 300000)));
    assert_eq!(m.traversal_terms(&edge(), &way(HighwayClass::Ferry)), Some((5, 1800000)));
    let avoid = SpeedMap { profile: &car, speed_config: &cfg, avoid_toll: true, avoid_ferry: true };
    assert_eq!(avoid.traversal_terms(&edge(), &toll), None);
    assert_eq!(avoid.traversal_terms(&edge(), &way(HighwayClass::Ferry)), None);
    let mut narrow = way(HighwayClass::Residential);
    narrow.dim = DimRestriction { max_height_dm: 0, max_width_dm: 18, max_weight_250kg: 0 };
    assert_eq!(m.traversal_terms(&edge(), &narrow), None);
    let mut closed = way(HighwayClass::Residential);
    closed.access = AccessFlags(AccessFlags::NO_MOTOR);
    assert_eq!(m.traversal_terms(&edge(), &closed), None);
}

#[test]
fn speed_map_turn_costs() {
    let car = Profile::car();
    let cfg = SpeedConfig::default();
    let m = SpeedMap { profile: &car, speed_config: &cfg, avoid_toll: false, avoid_ferry: false };
    let plain = TurnEdge::new(0, 1, 45, AccessFlags(0), TurnFlags(0));
    assert_eq!(m.turn_cost(&plain), Some(0));
    let signals = TurnEdge::new(0, 1, 45, AccessFlags(0), TurnFlags(TurnFlags::TRAFFIC_SIGNALS | TurnFlags::TOLL));
    assert_eq!(m.turn_cost(&signals), Some(15000 + 300000));
    let avoid = SpeedMap { profile: &car, speed_config: &cfg, avoid_toll: true, avoid_ferry: false };
    assert_eq!(avoid.turn_cost(&signals), None);
    let banned = TurnEdge::new(0, 1, 45, AccessFlags(AccessFlags::NO_CAR), TurnFlags(0));
    assert_eq!(m.turn_cost(&banned), None);
}

#[test]
fn way_and_edge_meta() {
    let mut w = way(HighwayClass::LivingStreet);
    w.flags = WayFlags(WayFlags::ONEWAY | WayFlags::TUNNEL);
    w.dim = DimRestriction { max_height_dm: 40, max_width_dm: 25, max_weight_250kg: 30 };
    w.access = AccessFlags(AccessFlags::NO_HGV);
    w.max_speed = 20;
    let meta = WayMeta::from(&w);
    assert_eq!(meta.id, 1);
    assert_eq!(meta.highway, "LivingStreet");
    assert_eq!(meta.surface_quality, "Unknown");
    assert!(meta.oneway && meta.tunnel && !meta.toll && !meta.bridge && !meta.ferry);
    assert_eq!((meta.max_height_cm, meta.max_width_cm, meta.max_weight_kg), (400, 250, 7500));
    assert!(meta.no_hgv && !meta.no_motor && !meta.no_foot);
    assert!(WayMeta::from(&way(HighwayClass::Ferry)).ferry);
    let e = EdgeMeta::from(&edge(), Some(2), None);
    assert_eq!(e.country_id.as_deref(), Some("DE"));
    assert_eq!((e.dist_m, e.from_node_idx, e.to_node_idx), (100, Some(2), None));
    let unknown = EdgeMeta::from(&EdgeNode::new(0, 5, CountryId(0), 0, 1), None, None);
    assert_eq!(unknown.country_id, None);
}

#[test]
fn error_messages() {
    assert_eq!(Error::UnknownProfile("truck".to_string()).message(), "The profile `truck` is not known");
    assert_eq!(Error::NoProfilesAvailable.message(), "There are no profiles available");
    assert_eq!(Error::NotFound("way", -5).message(), "way -5 not found");
    assert_eq!(Error::NotFound("way", 1234567890).message(), "way 1234567890 not found");
    assert_eq!(Error::InvalidRequest("bad".to_string()).message(), "Invalid request: bad");
    assert_eq!(Error::PolylineDecodingError(PolylineError(17)).message(), "Invalid input at offset 17");
    let io = std::io::Error::new(std::io::ErrorKind::Other, "disk gone");
    assert_eq!(Error::StorageError(io).message(), "Storage error: disk gone");
}

#[test]
fn problems_for_errors() {
    let p = Problem::from(Error::NoRoute);
    assert_eq!((p.status, p.title), (404, "No Route Found"));
    assert_eq!(p.detail.as_deref(), Some("No route found between the given locations"));
    let p = Problem::from(Error::UnknownProfile("x".to_string()));
    assert_eq!((p.status, p.title), (404, "Unknown Profile"));
    assert_eq!(Problem::from(Error::NoProfilesAvailable).status, 400);
    assert_eq!(Problem::from(Error::InvalidRequest(String::new())).title, "Invalid Request");
    let p = Problem::from(Error::StorageError(std::io::Error::new(std::io::ErrorKind::Other, "x")));
    assert_eq!((p.status, p.title), (500, "Internal Storage Error"));
    assert_eq!(Problem::from(Error::PolylineDecodingError(PolylineError(0))).title, "Polyline Decoding Error");
}

#[test]
fn request_defaults() {
    assert_eq!(Unit::default(), Unit::Kilometers);
    assert_eq!(IsochroneUnit::default(), IsochroneUnit::Km);
    assert_eq!(ServiceStatus::default(), ServiceStatus::Alive);
}

#[test]
fn profile_selection() {
    let all = profiles();
    assert_eq!(all.iter().map(|p| p.name).collect::<Vec<_>>(), vec!["car", "hgv", "bike", "foot"]);
    assert_eq!(get_profile(&all, "HGV").unwrap().name, "hgv");
    assert_eq!(get_opt_profile(&all, Some("Bike")).unwrap().name, "bike");
    assert_eq!(get_opt_profile(&all, None).unwrap().name, "car");
    assert_eq!(default_profile(&all).unwrap().name, "car");
    match get_profile(&all, "truck") {
        Err(Error::UnknownProfile(name)) => assert_eq!(name, "truck"),
        _ => panic!("unknown profile accepted"),
    }
    assert!(matches!(default_profile(&[]), Err(Error::NoProfilesAvailable)));
}
