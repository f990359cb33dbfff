use lso::recording::{
    changed_precision, coords_of, remove_unchanged, sample_order, should_stop, Coords, FrameClock,
    SampleOrder,
};
use lso::geometry::Vec3;
use lso::transform::Transform;

fn full(alt: i64, u: i64, v: i64, heading: i64) -> Coords {
    Coords {
        longitude: Some(4_150_000),
        latitude: Some(-230_000),
        altitude: Some(alt),
        u: Some(u),
        v: Some(v),
        roll: Some(0),
        pitch: Some(12),
        yaw: Some(3_590),
        heading: Some(heading),
    }
}

fn empty() -> Coords {
    Coords {
        longitude: None,
        latitude: None,
        altitude: None,
        u: None,
        v: None,
        roll: None,
        pitch: None,
        yaw: None,
        heading: None,
    }
}

#[test]
fn first_record_is_written_whole() {
    let mut known = None;
    let c = full(20_000, 1_000, 2_000, 900);
    assert_eq!(remove_unchanged(c, &mut known), c);
    assert_eq!(known, Some(c));
}

#[test]
fn repeated_record_writes_nothing() {
    let mut known = None;
    let c = full(20_000, 1_000, 2_000, 900);
    remove_unchanged(c, &mut known);
    assert_eq!(remove_unchanged(c, &mut known), empty());
    assert_eq!(remove_unchanged(c, &mut known), empty());
    assert_eq!(known, Some(c));
}

#[test]
fn only_changed_fields_are_written() {
    let mut known = None;
    remove_unchanged(full(20_000, 1_000, 2_000, 900), &mut known);
    // altitude moves 9 mm (below a centimetre), u moves 10 mm, heading 0.1 degree
    let r = remove_unchanged(full(20_009, 1_010, 2_000, 901), &mut known);
    assert_eq!(r, Coords { u: Some(1_010), heading: Some(901), ..empty() });
    let k = known.unwrap();
    assert_eq!(k.altitude, Some(20_000));
    assert_eq!(k.u, Some(1_010));
    assert_eq!(k.heading, Some(901));
    // the small drifts add up against the last written value
    let r = remove_unchanged(full(20_010, 1_010, 2_000, 901), &mut known);
    assert_eq!(r, Coords { altitude: Some(20_010), ..empty() });
}

#[test]
fn precision_of_changes() {
    assert!(changed_precision(Some(10), Some(0), 10));
    assert!(changed_precision(Some(-10), Some(0), 10));
    assert!(!changed_precision(Some(9), Some(0), 10));
    assert!(!changed_precision(None, None, 1));
    assert!(changed_precision(Some(0), None, 1));
    assert!(changed_precision(None, Some(0), 1));
    assert!(changed_precision(Some(i64::MIN), Some(i64::MAX), 1));
}

#[test]
fn frame_clock_is_monotonic() {
    let mut clock = FrameClock::new();
    assert_eq!(clock.stamp(100), Some(100));
    assert_eq!(clock.stamp(100), None);
    assert_eq!(clock.stamp(99), None);
    assert_eq!(clock.stamp(101), Some(101));
    assert_eq!(clock.last, Some(101));
}

#[test]
fn order_of_samples() {
    assert_eq!(sample_order(500, 500), SampleOrder::Together);
    assert_eq!(sample_order(500, 501), SampleOrder::CarrierFirst);
    assert_eq!(sample_order(502, 501), SampleOrder::PlaneFirst);
}

#[test]
fn recording_stops_after_grace_period() {
    assert!(should_stop(false, None, 0));
    assert!(!should_stop(true, None, 1_000_000));
    assert!(!should_stop(true, Some(500), 1_500));
    assert!(should_stop(true, Some(500), 1_501));
}

#[test]
fn coordinates_of_a_sample() {
    let mut t = Transform::default();
    t.lat = 421_234_567;
    t.lon = 415_000_000;
    t.alt = 20_150;
    t.position = Vec3::new(-1_234_560, 20_150, 987_650);
    t.roll = -5;
    t.pitch = 3;
    t.yaw = 1_800;
    t.heading = 1_810;
    let c = coords_of(&t, 420_000_000, 410_000_000);
    assert_eq!(
        c,
        Coords {
            longitude: Some(5_000_000),
            latitude: Some(1_234_567),
            altitude: Some(20_150),
            u: Some(-1_234_560),
            v: Some(987_650),
            roll: Some(-5),
            pitch: Some(3),
            yaw: Some(1_800),
            heading: Some(1_810),
        }
    );
}
