use lso::geometry::{Rotation, Vec3, UNIT};
use lso::rig::{AirplaneInfo, CarrierInfo};
use lso::track::{wire_from_grading, Datum, Grading, Track};
use lso::transform::Transform;

fn nimitz() -> CarrierInfo {
    CarrierInfo::by_type("CVN_71").unwrap()
}

fn hornet() -> AirplaneInfo {
    AirplaneInfo::by_type("FA-18C_hornet").unwrap()
}

fn sample(x: i64, alt: i64, z: i64, time: i64) -> Transform {
    let mut t = Transform::default();
    t.position = Vec3::new(x, alt, z);
    t.alt = alt;
    t.rotation = Rotation::identity();
    t.forward = Vec3::new(0, 0, UNIT);
    t.heading_dir = Vec3::new(0, 0, UNIT);
    t.aoa = 815;
    t.time = time;
    t
}

fn carrier(time: i64) -> Transform {
    sample(0, 0, 0, time)
}

/// Positions of a plane flying down the centerline from 1.2 nm to the aim
/// point while its hook sinks from 50 ft to the deck.
fn centerline_approach() -> Vec<Transform> {
    let aim = (-2557i64, -83571i64);
    let (fx, fz) = (-158777i64, 987315i64);
    let n = 12i64;
    (0..=n)
        .map(|k| {
            let s = 2222400 * (n - k) / n;
            let h = 15240 * (n - k) / n;
            sample(
                aim.0 - s * fx / UNIT,
                20149 + 2241 + h,
                aim.1 - s * fz / UNIT,
                100 * k + 1,
            )
        })
        .collect()
}

#[test]
fn optimal_landing_offset_of_nimitz_and_hornet() {
    let off = nimitz().optimal_landing_offset(&hornet());
    assert_eq!(off, Vec3::new(-2557, 22880, -83571));
}

#[test]
fn centerline_approach_catches_nearest_wire_ahead() {
    let mut track = Track::new("Maverick", nimitz(), hornet());
    let samples = centerline_approach();
    for p in &samples {
        assert!(track.next(&carrier(p.time), p));
    }
    let last = samples.last().unwrap();
    assert_eq!(track.estimate_cable(&carrier(last.time), last), Some(3));
    track.landed(&carrier(last.time), last);
    let result = track.finish();
    assert_eq!(
        result.grading,
        Grading::Recovered { cable: Some(3), cable_estimated: None }
    );
    assert_eq!(result.pilot_name, "Maverick");
    assert_eq!(result.glide_slope, 35);
    assert_eq!(result.datums.len(), 13);
    assert_eq!(result.datums[0], Datum { x: 2222401, y: 0, aoa: 815, alt: 15240 });
    assert_eq!(result.datums[12], Datum { x: 0, y: 0, aoa: 815, alt: 0 });
}

#[test]
fn datum_sign_follows_side_of_centerline() {
    let mut p = sample(176832, 30000, -577228, 1);
    p.aoa = 800;
    let mut right = Track::new("C", nimitz(), hornet());
    assert!(right.next(&carrier(1), &p));
    assert_eq!(right.finish().datums, vec![Datum { x: 515877, y: 98731, aoa: 800, alt: 7610 }]);
    let mut q = sample(-23168, 30000, -577228, 1);
    q.aoa = 800;
    let mut left = Track::new("D", nimitz(), hornet());
    assert!(left.next(&carrier(1), &q));
    assert_eq!(left.finish().datums, vec![Datum { x: 484122, y: -98731, aoa: 800, alt: 7610 }]);
}

#[test]
fn reversing_approach_ends_unknown_without_wire() {
    let mut track = Track::new("Goose", nimitz(), hornet());
    // closing in to 1000 m from the aim point, then turning away
    assert!(track.next(&carrier(1), &sample(-2557, 200000, -1083571, 1)));
    assert!(track.next(&carrier(2), &sample(-2557, 200000, -1050000, 2)));
    // 11.571 m farther than the least distance: still tracking
    assert!(track.next(&carrier(3), &sample(-2557, 200000, -1061571, 3)));
    // 100 m farther is still within the margin
    assert!(track.next(&carrier(4), &sample(-2557, 200000, -1150000, 4)));
    // more than 100 m farther: stop, with no datum added
    assert!(!track.next(&carrier(5), &sample(-2557, 200000, -1150001, 5)));
    let result = track.finish();
    assert_eq!(result.grading, Grading::Unknown);
    assert_eq!(result.datums.len(), 4);
}

#[test]
fn bolter_after_touchdown() {
    let mut track = Track::new("Iceman", nimitz(), hornet());
    let samples = centerline_approach();
    for p in &samples {
        track.next(&carrier(p.time), p);
    }
    let last = samples.last().unwrap();
    track.landed(&carrier(last.time), last);
    // rolling on past the aim point without stopping: no new datums
    assert!(track.next(&carrier(2000), &sample(-2557, 22390, -30000, 2000)));
    assert!(!track.next(&carrier(2100), &sample(-2557, 22390, 100000, 2100)));
    let result = track.finish();
    assert_eq!(result.grading, Grading::Bolter);
    assert_eq!(result.datums.len(), 13);
}

#[test]
fn first_positive_wire_is_preferred() {
    let track = Track::new("A", nimitz(), hornet());
    // behind every wire: all four count, wire 1 wins
    assert_eq!(track.estimate_cable(&carrier(1), &sample(0, 22390, -125000, 1)), Some(1));
    // past every wire: none counts
    assert_eq!(track.estimate_cable(&carrier(1), &sample(0, 22390, -40000, 1)), None);
}

#[test]
fn reported_wire_overrides_estimate() {
    let mut track = Track::new("Viper", nimitz(), hornet());
    let samples = centerline_approach();
    for p in &samples {
        track.next(&carrier(p.time), p);
    }
    let last = samples.last().unwrap();
    track.landed(&carrier(last.time), last);
    track.set_dcs_grading("LSO: GRADE:OK  : WIRE# 2".to_string());
    let result = track.finish();
    assert_eq!(
        result.grading,
        Grading::Recovered { cable: Some(2), cable_estimated: Some(3) }
    );
    assert_eq!(result.dcs_grading.as_deref(), Some("LSO: GRADE:OK  : WIRE# 2"));
}

#[test]
fn reported_wire_without_estimate() {
    let mut track = Track::new("Jester", nimitz(), hornet());
    track.set_dcs_grading("LSO: GRADE:C WIRE# 3".to_string());
    let result = track.finish();
    assert_eq!(
        result.grading,
        Grading::Recovered { cable: Some(3), cable_estimated: None }
    );
}

#[test]
fn wire_number_in_grading_text() {
    assert_eq!(wire_from_grading("LSO: GRADE:OK WIRE# 3"), Some(3));
    assert_eq!(wire_from_grading("WIRE# 3 (OK)"), Some(3));
    assert_eq!(wire_from_grading("WIRE# 12"), Some(12));
    assert_eq!(wire_from_grading("WIRE# 123"), None);
    assert_eq!(wire_from_grading("WIRE#3"), None);
    assert_eq!(wire_from_grading("WIRE# x WIRE# 4"), None);
    assert_eq!(wire_from_grading("no wire"), None);
    assert_eq!(wire_from_grading(""), None);
    assert_eq!(wire_from_grading("Grade: é WIRE# 1"), Some(1));
}

#[test]
fn default_grading_is_unknown() {
    assert_eq!(Grading::default(), Grading::Unknown);
}
