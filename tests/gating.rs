use lso::gating::is_recovery_attempt;
use lso::geometry::{Vec3, UNIT};
use lso::transform::Transform;

fn at(x: i64, alt: i64, z: i64) -> Transform {
    let mut t = Transform::default();
    t.position = Vec3::new(x, alt, z);
    t.alt = alt;
    t.time = 1;
    t
}

/// A plane 1 nm south of the carrier at `alt`, flying north-east so that its
/// velocity makes a cosine of 0.9 with the horizontal ray to the carrier.
fn plane_one_nm_out(alt: i64) -> Transform {
    let mut p = at(0, alt, -1_852_000);
    p.velocity = Vec3::new(30_513, 0, 63_000);
    p
}

fn carrier() -> Transform {
    let mut c = at(0, 0, 0);
    c.forward = Vec3::new(0, 0, UNIT);
    c
}

#[test]
fn gating_rejects_plane_above_500_ft() {
    assert!(!is_recovery_attempt(&carrier(), &plane_one_nm_out(182_880)));
}

#[test]
fn gating_accepts_low_plane_pointed_at_carrier() {
    assert!(is_recovery_attempt(&carrier(), &plane_one_nm_out(91_440)));
}

#[test]
fn gating_altitude_limit_is_inclusive() {
    assert!(is_recovery_attempt(&carrier(), &plane_one_nm_out(152_400)));
    assert!(!is_recovery_attempt(&carrier(), &plane_one_nm_out(152_401)));
}

#[test]
fn gating_rejects_far_and_near_planes() {
    let mut far = at(0, 91_440, -2_778_001);
    far.velocity = Vec3::new(0, 0, 70_000);
    assert!(!is_recovery_attempt(&carrier(), &far));
    let mut edge = at(0, 91_440, -2_778_000);
    edge.velocity = Vec3::new(0, 0, 70_000);
    assert!(is_recovery_attempt(&carrier(), &edge));
    let mut near = at(0, 91_440, -199_999);
    near.velocity = Vec3::new(0, 0, 70_000);
    assert!(!is_recovery_attempt(&carrier(), &near));
}

#[test]
fn gating_rejects_plane_ahead_of_carrier() {
    let mut p = at(0, 91_440, 1_000_000);
    p.velocity = Vec3::new(0, 0, -70_000);
    assert!(!is_recovery_attempt(&carrier(), &p));
}

#[test]
fn gating_rejects_plane_not_pointed_at_carrier() {
    let mut p = at(0, 91_440, -1_000_000);
    // 60 degrees off the ray: cosine 0.5
    p.velocity = Vec3::new(60_622, 0, 35_000);
    assert!(!is_recovery_attempt(&carrier(), &p));
    p.velocity = Vec3::new(0, 0, 0);
    assert!(!is_recovery_attempt(&carrier(), &p));
}
