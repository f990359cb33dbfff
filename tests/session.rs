use lso::geometry::{Vec3, UNIT};
use lso::recording::Coords;
use lso::rig::{AirplaneInfo, CarrierInfo};
use lso::session::{LogRecord, Session, CARRIER_ID, PLANE_ID};
use lso::track::Grading;
use lso::transform::Transform;

fn sample(x: i64, alt: i64, z: i64, time: i64) -> Transform {
    let mut t = Transform::default();
    t.position = Vec3::new(x, alt, z);
    t.alt = alt;
    t.lat = 421_000_000;
    t.lon = 415_000_000;
    t.forward = Vec3::new(0, 0, UNIT);
    t.heading_dir = Vec3::new(0, 0, UNIT);
    t.aoa = 815;
    t.time = time;
    t
}

fn whole(t: &Transform, lat_ref: i64, lon_ref: i64) -> Coords {
    Coords {
        longitude: Some(t.lon - lon_ref),
        latitude: Some(t.lat - lat_ref),
        altitude: Some(t.alt),
        u: Some(t.position.x),
        v: Some(t.position.z),
        roll: Some(t.roll),
        pitch: Some(t.pitch),
        yaw: Some(t.yaw),
        heading: Some(t.heading),
    }
}

fn nothing() -> Coords {
    Coords {
        longitude: None,
        latitude: None,
        altitude: None,
        u: None,
        v: None,
        roll: None,
        pitch: None,
        yaw: None,
        heading: None,
    }
}

fn session() -> Session {
    Session::new(
        "Maverick",
        CarrierInfo::by_type("CVN_71").unwrap(),
        AirplaneInfo::by_type("FA-18C_hornet").unwrap(),
    )
}

#[test]
fn first_poll_writes_reference_and_whole_samples() {
    let mut s = session();
    let c = sample(0, 0, 0, 100);
    let p = sample(0, 91_440, -1_000_000, 100);
    let (records, stop) = s.on_tick(&c, &p, 0);
    assert!(!stop);
    assert_eq!(
        records,
        vec![
            LogRecord::ReferenceLatitude(421_000_000),
            LogRecord::ReferenceLongitude(415_000_000),
            LogRecord::Frame(100),
            LogRecord::Update { id: CARRIER_ID, coords: whole(&c, 421_000_000, 415_000_000), aoa: None },
            LogRecord::Update { id: PLANE_ID, coords: whole(&p, 421_000_000, 415_000_000), aoa: Some(815) },
        ]
    );
}

#[test]
fn repeated_poll_writes_no_fields() {
    let mut s = session();
    let c = sample(0, 0, 0, 100);
    let p = sample(0, 91_440, -1_000_000, 100);
    s.on_tick(&c, &p, 0);
    let (records, stop) = s.on_tick(&c, &p, 10);
    assert!(!stop);
    assert_eq!(
        records,
        vec![
            LogRecord::Update { id: CARRIER_ID, coords: nothing(), aoa: None },
            LogRecord::Update { id: PLANE_ID, coords: nothing(), aoa: Some(815) },
        ]
    );
}

#[test]
fn samples_at_different_times_get_own_frames() {
    let mut s = session();
    s.on_tick(&sample(0, 0, 0, 100), &sample(0, 91_440, -1_000_000, 100), 0);
    let c = sample(0, 0, 100, 202);
    let p = sample(0, 91_440, -990_000, 201);
    let (records, _) = s.on_tick(&c, &p, 10);
    assert_eq!(records.len(), 4);
    assert_eq!(records[0], LogRecord::Frame(201));
    assert!(matches!(records[1], LogRecord::Update { id: PLANE_ID, .. }));
    assert_eq!(records[2], LogRecord::Frame(202));
    assert!(matches!(records[3], LogRecord::Update { id: CARRIER_ID, .. }));
}

#[test]
fn landing_starts_grace_period() {
    let mut s = session();
    let c = sample(0, 0, 0, 100);
    let p = sample(-2557, 22_390, -83_571, 100);
    s.on_tick(&c, &p, 0);
    let records = s.on_land(150, &c, &p, 1_000);
    assert_eq!(records.len(), 4);
    assert_eq!(records[0], LogRecord::Frame(150));
    assert_eq!(records[3], LogRecord::Landed);
    assert_eq!(s.landed_at, Some(1_000));
    let (_, stop) = s.on_tick(&c, &p, 2_000);
    assert!(!stop);
    let (_, stop) = s.on_tick(&c, &p, 2_001);
    assert!(stop);
    let marks = s.on_quality_mark(160, &c, &p, "WIRE# 4".to_string());
    assert_eq!(marks.last(), Some(&LogRecord::Message("WIRE# 4".to_string())));
    let result = s.track.finish();
    assert_eq!(
        result.grading,
        Grading::Recovered { cable: Some(4), cable_estimated: Some(3) }
    );
}

#[test]
fn event_before_first_poll_writes_reference() {
    let mut s = session();
    let c = sample(0, 0, 0, 100);
    let p = sample(0, 91_440, -1_000_000, 100);
    let records = s.on_quality_mark(90, &c, &p, "OK".to_string());
    assert_eq!(records.len(), 6);
    assert_eq!(records[0], LogRecord::ReferenceLatitude(421_000_000));
    assert_eq!(records[1], LogRecord::ReferenceLongitude(415_000_000));
    assert_eq!(records[2], LogRecord::Frame(90));
    let (records, _) = s.on_tick(&c, &p, 0);
    assert_eq!(records[0], LogRecord::Frame(100));
    assert_eq!(records.len(), 3);
}
