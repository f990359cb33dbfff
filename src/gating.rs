//! Whether a carrier and plane pair shows a recovery attempt worth tracking.
use vstd::prelude::*;
use crate::geometry::{COORD_LIMIT, Point, VELOCITY_LIMIT, UNIT, dot, minus, lemma_mul_bound};
use crate::transform::Transform;

verus! {

/// Planes above this altitude (500 ft), in millimetres, are not tracked.
pub const MAX_ALTITUDE: i64 = 152_400;

/// Planes farther away than this horizontal distance (1.5 nm), in millimetres, are not tracked.
pub const MAX_DISTANCE: i64 = 2_778_000;

/// Planes closer than this horizontal distance, in millimetres, are taking off.
pub const MIN_DISTANCE: i64 = 200_000;

/// The ray from the plane to the carrier.
pub open spec fn ray_to_carrier(c: Transform, p: Transform) -> Point {
    minus(c.position.point(), p.position.point())
}

pub open spec fn horizontal_sq(v: Point) -> int {
    v.x * v.x + v.z * v.z
}

/// The velocity of the plane points at the carrier within the cone whose
/// half-angle has the cosine 0.65: `v·r >= 0.65 |v| |r|`, with a velocity of
/// zero pointing nowhere.
pub open spec fn points_at(v: Point, r: Point) -> bool {
    dot(v, r) > 0 && 400 * (dot(v, r) * dot(v, r)) >= 169 * (dot(v, v) * dot(r, r))
}

/// All five conditions of a recovery attempt.
pub open spec fn recovery_attempt(c: Transform, p: Transform) -> bool {
    let r = ray_to_carrier(c, p);
    &&& p.alt <= MAX_ALTITUDE
    &&& horizontal_sq(r) <= MAX_DISTANCE * MAX_DISTANCE
    &&& horizontal_sq(r) >= MIN_DISTANCE * MIN_DISTANCE
    &&& dot(c.forward.point(), r) >= 0
    &&& points_at(p.velocity.point(), r)
}

/// Whether the plane is low, near but not at the carrier, behind it (along
/// the carrier's forward vector) and flying towards it.
pub fn is_recovery_attempt(carrier: &Transform, plane: &Transform) -> (r: bool)
    requires
        carrier.wf(),
        plane.wf(),
    ensures
        r == recovery_attempt(*carrier, *plane),
{
    if plane.alt > MAX_ALTITUDE {
        return false;
    }
    let rx = (carrier.position.x - plane.position.x) as i128;
    let ry = (carrier.position.y - plane.position.y) as i128;
    let rz = (carrier.position.z - plane.position.z) as i128;
    let ghost rl = 2 * COORD_LIMIT;
    let ghost vl = VELOCITY_LIMIT as int;
    let ghost ul = UNIT as int;
    proof {
        lemma_mul_bound(rx as int, rx as int, rl, rl);
        lemma_mul_bound(ry as int, ry as int, rl, rl);
        lemma_mul_bound(rz as int, rz as int, rl, rl);
    }
    let h2 = rx * rx + rz * rz;
    assert(MAX_DISTANCE * MAX_DISTANCE == 7_717_284_000_000) by (nonlinear_arith);
    assert(MIN_DISTANCE * MIN_DISTANCE == 40_000_000_000) by (nonlinear_arith);
    if h2 > 7_717_284_000_000 {
        return false;
    }
    if h2 < 40_000_000_000 {
        return false;
    }
    let f = carrier.forward;
    proof {
        lemma_mul_bound(f.x as int, rx as int, ul, rl);
        lemma_mul_bound(f.y as int, ry as int, ul, rl);
        lemma_mul_bound(f.z as int, rz as int, ul, rl);
    }
    let behind = (f.x as i128) * rx + (f.y as i128) * ry + (f.z as i128) * rz;
    if behind < 0 {
        return false;
    }
    let v = plane.velocity;
    proof {
        lemma_mul_bound(v.x as int, rx as int, vl, rl);
        lemma_mul_bound(v.y as int, ry as int, vl, rl);
        lemma_mul_bound(v.z as int, rz as int, vl, rl);
        lemma_mul_bound(v.x as int, v.x as int, vl, vl);
        lemma_mul_bound(v.y as int, v.y as int, vl, vl);
        lemma_mul_bound(v.z as int, v.z as int, vl, vl);
    }
    let vr = (v.x as i128) * rx + (v.y as i128) * ry + (v.z as i128) * rz;
    if vr <= 0 {
        return false;
    }
    let vv = (v.x as i128) * (v.x as i128) + (v.y as i128) * (v.y as i128) + (v.z as i128) * (
    v.z as i128);
    let rr = rx * rx + ry * ry + rz * rz;
    proof {
        let vrl = 3 * (vl * rl);
        lemma_mul_bound(vr as int, vr as int, vrl, vrl);
        assert(v.x * v.x >= 0 && v.y * v.y >= 0 && v.z * v.z >= 0) by (nonlinear_arith);
        assert(rx * rx >= 0 && ry * ry >= 0 && rz * rz >= 0) by (nonlinear_arith);
        lemma_mul_bound(vv as int, rr as int, 3 * (vl * vl), 3 * (rl * rl));
        assert(400 * (vrl * vrl) < 0x7fff_ffff_ffff_ffff_ffff_ffff_ffff_ffff) by (nonlinear_arith)
            requires
                vrl == 3 * (vl * rl),
                vl == VELOCITY_LIMIT,
                rl == 2 * COORD_LIMIT,
        ;
        assert(169 * ((3 * (vl * vl)) * (3 * (rl * rl))) < 0x7fff_ffff_ffff_ffff_ffff_ffff_ffff_ffff)
            by (nonlinear_arith)
            requires
                vl == VELOCITY_LIMIT,
                rl == 2 * COORD_LIMIT,
        ;
    }
    400 * (vr * vr) >= 169 * (vv * rr)
}

} // verus!
