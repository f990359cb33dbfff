use lso::geometry::{Rotation, Vec3, UNIT};
use lso::recording::Coords;
use lso::replay::{extract_recoveries, Attitude, Replay, UnitUpdate};
use lso::tags::TagSet;
use lso::track::Grading;

fn north() -> Attitude {
    Attitude {
        forward: Vec3::new(0, 0, UNIT),
        rotation: Rotation::identity(),
        heading_dir: Vec3::new(0, 0, UNIT),
    }
}

fn coords(x: i64, alt: i64, z: i64) -> Coords {
    Coords {
        longitude: Some(0),
        latitude: Some(0),
        altitude: Some(alt),
        u: Some(x),
        v: Some(z),
        roll: Some(0),
        pitch: Some(0),
        yaw: Some(0),
        heading: Some(0),
    }
}

fn no_tags() -> TagSet {
    TagSet { sea: false, watercraft: false, aircraft_carrier: false, air: false, fixed_wing: false }
}

fn carrier_update(first: bool) -> UnitUpdate {
    UnitUpdate {
        id: 1,
        coords: Some(coords(0, 0, 0)),
        attitude: Some(north()),
        pilot: None,
        aoa: None,
        name: if first { Some("CVN_71".to_string()) } else { None },
        tags: if first {
            Some(TagSet { sea: true, watercraft: true, aircraft_carrier: true, ..no_tags() })
        } else {
            None
        },
    }
}

fn plane_update(first: bool, x: i64, alt: i64, z: i64) -> UnitUpdate {
    UnitUpdate {
        id: 2,
        coords: Some(coords(x, alt, z)),
        attitude: Some(north()),
        pilot: if first { Some("Maverick".to_string()) } else { None },
        aoa: Some(815),
        name: if first { Some("FA-18C_hornet".to_string()) } else { None },
        tags: if first { Some(TagSet { air: true, fixed_wing: true, ..no_tags() }) } else { None },
    }
}

#[test]
fn replay_forms_pairs_of_carriers_and_planes() {
    let mut r = Replay::new();
    r.on_frame(100);
    r.on_update(&carrier_update(true));
    assert_eq!(r.carriers.len(), 1);
    assert_eq!(r.pairs.len(), 0);
    r.on_update(&plane_update(true, 0, 91_440, -1_852_000));
    assert_eq!(r.planes.len(), 1);
    assert_eq!(r.pairs.len(), 1);
    assert_eq!(r.pairs[0].pilot_name, "Maverick");
    assert_eq!(r.pairs[0].plane.time, 100);
    assert!(r.pairs[0].is_dirty);
    // an unsupported type forms no pair
    let mut other = plane_update(true, 0, 0, 0);
    other.id = 3;
    other.name = Some("F-16C_50".to_string());
    r.on_update(&other);
    assert_eq!(r.planes.len(), 1);
    assert_eq!(r.pairs.len(), 1);
}

#[test]
fn replay_velocity_from_positions() {
    let mut r = Replay::new();
    r.on_frame(100);
    r.on_update(&carrier_update(true));
    r.on_update(&plane_update(true, 0, 91_440, -1_852_000));
    r.on_frame(150);
    r.on_update(&plane_update(false, 1_000, 91_440, -1_848_000));
    assert_eq!(r.pairs[0].plane.velocity, Vec3::new(2_000, 0, 8_000));
}

#[test]
fn replay_regrades_a_recorded_recovery() {
    let mut r = Replay::new();
    r.on_frame(100);
    r.on_update(&carrier_update(true));
    r.on_update(&plane_update(true, 0, 91_440, -1_852_000));
    r.on_frame(200);
    r.on_update(&carrier_update(false));
    r.on_update(&plane_update(false, 0, 91_440, -1_845_000));
    r.on_frame(300);
    assert!(r.pairs[0].is_recovery_attempt);

    let aim = (-2557i64, -83571i64);
    let (fx, fz) = (-158777i64, 987315i64);
    let n = 12i64;
    for k in 0..=n {
        let s = 1_800_000 * (n - k) / n;
        let h = 15240 * (n - k) / n;
        r.on_update(&carrier_update(false));
        r.on_update(&plane_update(false, aim.0 - s * fx / UNIT, 20149 + 2241 + h, aim.1 - s * fz / UNIT));
        r.on_frame(400 + 100 * k);
    }
    r.on_grading(1, 2, "LSO: GRADE:OK WIRE# 2");
    r.on_landed(1, 2);
    let pairs = r.finish();
    assert!(pairs[0].is_done);
    let results = extract_recoveries(pairs);
    assert_eq!(results.len(), 1);
    // one datum per frame, and one more for the samples of the landing
    assert_eq!(results[0].datums.len(), 14);
    assert_eq!(
        results[0].grading,
        Grading::Recovered { cable: Some(2), cable_estimated: Some(3) }
    );
}
