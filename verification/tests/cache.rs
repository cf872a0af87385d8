use tracker::cache::{cache_needs_refresh, decode_elements, encode_elements, CacheRecord};

const ISS_OMM: &str = r#"[{
    "OBJECT_NAME": "ISS (ZARYA)",
    "OBJECT_ID": "1998-067A",
    "EPOCH": "2020-07-12T01:19:07.402656",
    "MEAN_MOTION": 15.49560532,
    "ECCENTRICITY": 0.0001771,
    "INCLINATION": 51.6435,
    "RA_OF_ASC_NODE": 225.4004,
    "ARG_OF_PERICENTER": 44.9625,
    "MEAN_ANOMALY": 5.1087,
    "EPHEMERIS_TYPE": 0,
    "CLASSIFICATION_TYPE": "U",
    "NORAD_CAT_ID": 25544,
    "ELEMENT_SET_NO": 999,
    "REV_AT_EPOCH": 23587,
    "BSTAR": 0.0049645,
    "MEAN_MOTION_DOT": 0.00289036,
    "MEAN_MOTION_DDOT": 0
}]"#;

#[test]
fn record_valid_one_second_before_lifetime() {
    // Written at T with lifetime L: still valid at T + L - 1 s.
    let written: i64 = 1_000_000_000_000;
    let lifetime: i64 = 7_200_000;
    let record = CacheRecord { written_at_ms: written, elements: Vec::new() };
    assert!(record.is_valid(written + lifetime - 1000, lifetime));
}

#[test]
fn record_expired_one_second_after_lifetime() {
    let written: i64 = 1_000_000_000_000;
    let lifetime: i64 = 7_200_000;
    let record = CacheRecord { written_at_ms: written, elements: Vec::new() };
    assert!(!record.is_valid(written + lifetime + 1000, lifetime));
}

#[test]
fn record_valid_exactly_at_lifetime() {
    // Expiry is strict: the record is still valid when its age equals the
    // lifetime exactly.
    let record = CacheRecord { written_at_ms: 0, elements: Vec::new() };
    assert!(record.is_valid(5000, 5000));
    assert!(!record.is_valid(5001, 5000));
}

#[test]
fn missing_record_needs_refresh() {
    assert!(cache_needs_refresh(None, 42, 1000));
}

#[test]
fn stale_record_needs_refresh() {
    let record = CacheRecord { written_at_ms: 0, elements: Vec::new() };
    assert!(cache_needs_refresh(Some(&record), 2000, 1000));
    assert!(!cache_needs_refresh(Some(&record), 500, 1000));
}

#[test]
fn decode_parses_a_catalog_response() {
    let elements = decode_elements(ISS_OMM).expect("the sample response parses");
    assert_eq!(elements.len(), 1);
    assert_eq!(elements[0].norad_id, 25544);
    assert_eq!(elements[0].object_name.as_deref(), Some("ISS (ZARYA)"));
}

#[test]
fn decode_rejects_malformed_text() {
    assert!(decode_elements("not json at all").is_none());
    assert!(decode_elements("{\"OBJECT_NAME\": 3}").is_none());
}

#[test]
fn encode_then_decode_round_trips() {
    let elements = decode_elements(ISS_OMM).expect("the sample response parses");
    let json = encode_elements(&elements).expect("encoding succeeds");
    let back = decode_elements(&json).expect("the encoded text parses");
    assert_eq!(back.len(), 1);
    assert_eq!(back[0].norad_id, 25544);
    assert_eq!(back[0].mean_motion, elements[0].mean_motion);
}
