use tracker::group::{
    CelestrakId, Group, GroupConfig, Identifier, SatelliteGroup, SatelliteGroupsConfig,
};
use tracker::object::{materialize_objects, Object};
use tracker::cache::decode_elements;
use tracker::sim_time::TimeState;
use tracker::selection::ObjectSelection;

#[test]
fn default_roster_offers_nineteen_groups() {
    let config = SatelliteGroupsConfig::default();
    assert_eq!(config.cache_lifetime_min, 120);
    assert_eq!(config.groups.len(), 19);
    assert_eq!(config.groups[0].label, "ISS");
    assert_eq!(config.groups[0].id.as_deref(), Some("1998-067A"));
    assert_eq!(config.groups[2].label, "Weather");
    assert_eq!(config.groups[2].group.as_deref(), Some("weather"));
    assert_eq!(config.groups[18].label, "CubeSats");
    for group in &config.groups {
        assert!(group.id.is_some() != group.group.is_some());
    }
}

#[test]
fn group_queries_by_designator_or_collection() {
    let by_id = Group::from_config(GroupConfig::with_id("ISS".to_owned(), "1998-067A".to_owned()));
    assert_eq!(by_id.label(), "ISS");
    assert_eq!(by_id.query_parameter(), ("INTDES", "1998-067A"));
    assert_eq!(by_id.identifier().value(), "1998-067A");

    let by_group =
        Group::from_config(GroupConfig::with_group("GPS".to_owned(), "gps-ops".to_owned()));
    assert_eq!(by_group.label(), "GPS");
    assert_eq!(by_group.query_parameter(), ("GROUP", "gps-ops"));
}

#[test]
fn cache_key_is_the_lowercased_identifier() {
    let group = Group::from_config(GroupConfig::with_id("ISS".to_owned(), "1998-067A".to_owned()));
    assert_eq!(group.cache_key(), "1998-067a");
    let other =
        Group::from_config(GroupConfig::with_group("NOAA".to_owned(), "NOAA".to_owned()));
    assert_eq!(other.cache_key(), "noaa");
}

#[test]
fn groups_compare_by_identifier_not_label() {
    let a = Group::from_config(GroupConfig::with_id("ISS".to_owned(), "1998-067A".to_owned()));
    let b = Group::from_config(GroupConfig::with_id("Station".to_owned(), "1998-067A".to_owned()));
    let c = Group::from_config(GroupConfig::with_id("ISS".to_owned(), "2021-035A".to_owned()));
    assert!(a == b);
    assert!(a != c);
    assert!(Identifier::Id("x".to_owned()) != Identifier::Group("x".to_owned()));
}

#[test]
fn satellite_group_compares_by_celestrak_id() {
    let a = SatelliteGroup::new("ISS".to_owned(), CelestrakId::CosparId("1998-067A".to_owned()));
    let b = SatelliteGroup::new("Zarya".to_owned(), CelestrakId::CosparId("1998-067A".to_owned()));
    let c = SatelliteGroup::new("ISS".to_owned(), CelestrakId::GroupName("stations".to_owned()));
    assert_eq!(a.label(), "ISS");
    assert!(a == b);
    assert!(a != c);
}

const ISS_OMM: &str = r#"[{
    "OBJECT_NAME": "ISS (ZARYA)",
    "OBJECT_ID": "1998-067A",
    "EPOCH": "2020-07-12T01:19:07.402656",
    "MEAN_MOTION": 15.49560532,
    "ECCENTRICITY": 0.0001771,
    "INCLINATION": 51.6435,
    "RA_OF_ASC_NODE": 225.4004,
    "ARG_OF_PERICENTER": 44.9625,
    "MEAN_ANOMALY": 5.1087,
    "EPHEMERIS_TYPE": 0,
    "CLASSIFICATION_TYPE": "U",
    "NORAD_CAT_ID": 25544,
    "ELEMENT_SET_NO": 999,
    "REV_AT_EPOCH": 23587,
    "BSTAR": 0.0049645,
    "MEAN_MOTION_DOT": 0.00289036,
    "MEAN_MOTION_DDOT": 0
}]"#;

/// The sample element set with its mean motion replaced, to exercise the
/// propagator's rejection of a degenerate orbit.
fn iss_with_mean_motion(value: &str) -> String {
    ISS_OMM.replace("15.49560532", value)
}

#[test]
fn object_built_from_valid_elements() {
    let elements = decode_elements(ISS_OMM).unwrap().pop().unwrap();
    let object = Object::from_elements(elements).expect("the sample orbit is propagatable");
    assert_eq!(object.name().as_deref(), Some("ISS (ZARYA)"));
    assert_eq!(object.epoch_ms(), 1_594_516_747_402);
    assert_eq!(object.elements().norad_id, 25544);
}

#[test]
fn degenerate_orbit_is_rejected_per_object() {
    let json = iss_with_mean_motion("0.0");
    let elements = decode_elements(&json).unwrap().pop().unwrap();
    assert!(Object::from_elements(elements).is_err());
}

#[test]
fn materialization_drops_only_the_degenerate_sets() {
    // One good and one degenerate record: the roster gets exactly the good
    // one; the failure is local to its object.
    let mut sets = decode_elements(ISS_OMM).unwrap();
    let bad = decode_elements(&iss_with_mean_motion("0.0")).unwrap().pop().unwrap();
    sets.push(bad);
    let objects = materialize_objects(sets);
    assert_eq!(objects.len(), 1);
    assert_eq!(objects[0].name().as_deref(), Some("ISS (ZARYA)"));
}

#[test]
fn time_state_tracks_its_offset() {
    let mut time = TimeState::default();
    assert_eq!(time.time_offset(), 0);
    assert_eq!(time.time(1_000), 1_000);
    time.advance_time(500);
    assert_eq!(time.time(1_000), 1_500);
    time.rewind_time(200);
    assert_eq!(time.time_offset(), 300);
    time.set_time(5_000, 2_000);
    assert_eq!(time.time_offset(), 3_000);
    time.set_time_offset(-42);
    assert_eq!(time.time(100), 58);
}

#[test]
fn stale_selection_indices_yield_nothing() {
    let elements = decode_elements(ISS_OMM).unwrap();
    let objects = materialize_objects(elements);
    assert_eq!(objects.len(), 1);

    let mut selection = ObjectSelection::default();
    assert!(selection.selected_object(&objects).is_none());
    selection.set_selected(Some(0));
    assert!(selection.selected_object(&objects).is_some());
    selection.set_hovered(Some(5));
    // An index past the roster is stale and yields nothing.
    assert!(selection.hovered_object(&objects).is_none());
    selection.invalidate();
    assert!(selection.selected_object(&objects).is_none());
    assert!(selection.hovered_object(&objects).is_none());
}
