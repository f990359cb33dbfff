//! Fixed-point vector geometry.
//!
//! Lengths are integers in millimetres, velocities in millimetres per second.
//! Directions (unit vectors, rows of a rotation matrix, sines and cosines) are
//! integers scaled by [`UNIT`].
use vstd::prelude::*;

verus! {

/// The fixed-point one of directions and of sines and cosines.
pub const UNIT: i64 = 1_000_000;

/// Largest magnitude of a coordinate component, in millimetres.
pub const COORD_LIMIT: i64 = 10_000_000_000;

/// Largest magnitude of a velocity component, in millimetres per second.
pub const VELOCITY_LIMIT: i64 = 10_000_000;

/// A vector of three integer components.
#[derive(Clone, Copy, Debug, PartialEq, Eq, Structural)]
pub struct Vec3 {
    pub x: i64,
    pub y: i64,
    pub z: i64,
}

/// A vector of three unbounded integers, for stating results.
pub struct Point {
    pub x: int,
    pub y: int,
    pub z: int,
}

/// A rotation as a fixed-point matrix: each row is scaled by [`UNIT`].
#[derive(Clone, Copy, Debug, PartialEq, Eq, Structural)]
pub struct Rotation {
    pub row_x: Vec3,
    pub row_y: Vec3,
    pub row_z: Vec3,
}

/// A turn within the horizontal plane, given by its fixed-point cosine and sine.
#[derive(Clone, Copy, Debug, PartialEq, Eq, Structural)]
pub struct Turn {
    pub cos: i64,
    pub sin: i64,
}

impl Vec3 {
    pub open spec fn bounded(self, limit: int) -> bool {
        &&& -limit <= self.x <= limit
        &&& -limit <= self.y <= limit
        &&& -limit <= self.z <= limit
    }

    pub open spec fn is_coord(self) -> bool {
        self.bounded(COORD_LIMIT as int)
    }

    pub open spec fn is_direction(self) -> bool {
        self.bounded(UNIT as int)
    }

    pub open spec fn point(self) -> Point {
        Point { x: self.x as int, y: self.y as int, z: self.z as int }
    }

    pub fn new(x: i64, y: i64, z: i64) -> (r: Vec3)
        ensures
            r.x == x && r.y == y && r.z == z,
    {
        Vec3 { x, y, z }
    }
}

impl Rotation {
    pub open spec fn wf(self) -> bool {
        self.row_x.is_direction() && self.row_y.is_direction() && self.row_z.is_direction()
    }

    /// The rotation that leaves every vector as it is.
    pub fn identity() -> (r: Rotation)
        ensures
            r.wf(),
            r.row_x == (Vec3 { x: UNIT, y: 0, z: 0 }),
            r.row_y == (Vec3 { x: 0, y: UNIT, z: 0 }),
            r.row_z == (Vec3 { x: 0, y: 0, z: UNIT }),
    {
        Rotation {
            row_x: Vec3 { x: UNIT, y: 0, z: 0 },
            row_y: Vec3 { x: 0, y: UNIT, z: 0 },
            row_z: Vec3 { x: 0, y: 0, z: UNIT },
        }
    }
}

impl Turn {
    pub open spec fn wf(self) -> bool {
        -UNIT <= self.cos <= UNIT && -UNIT <= self.sin <= UNIT
    }
}

pub open spec fn dot(a: Point, b: Point) -> int {
    a.x * b.x + a.y * b.y + a.z * b.z
}

pub open spec fn plus(a: Point, b: Point) -> Point {
    Point { x: a.x + b.x, y: a.y + b.y, z: a.z + b.z }
}

pub open spec fn minus(a: Point, b: Point) -> Point {
    Point { x: a.x - b.x, y: a.y - b.y, z: a.z - b.z }
}

pub open spec fn times(a: Point, k: int) -> Point {
    Point { x: a.x * k, y: a.y * k, z: a.z * k }
}

/// Integer division that rounds toward zero, as Rust's `/` does.
pub open spec fn div_trunc(a: int, d: int) -> int {
    if a >= 0 {
        a / d
    } else {
        -((-a) / d)
    }
}

/// `v` rotated by `r`, in the units of `v`.
pub open spec fn rotate(r: Rotation, v: Point) -> Point {
    Point {
        x: div_trunc(dot(r.row_x.point(), v), UNIT as int),
        y: div_trunc(dot(r.row_y.point(), v), UNIT as int),
        z: div_trunc(dot(r.row_z.point(), v), UNIT as int),
    }
}

/// `v` turned within the horizontal plane by `t`, scaled by [`UNIT`]; `y` is scaled alike.
pub open spec fn turn_scaled(t: Turn, v: Point) -> Point {
    Point {
        x: t.cos * v.x - t.sin * v.z,
        y: UNIT * v.y,
        z: t.sin * v.x + t.cos * v.z,
    }
}

/// `r` is the largest integer whose square does not exceed `n`.
pub open spec fn is_floor_sqrt(r: int, n: int) -> bool {
    0 <= r && r * r <= n < (r + 1) * (r + 1)
}

pub open spec fn floor_sqrt(n: int) -> int {
    choose|r: int| is_floor_sqrt(r, n)
}

/// The horizontal length of `v`, rounded down.
pub open spec fn horizontal_len(v: Point) -> int {
    floor_sqrt(v.x * v.x + v.z * v.z)
}

pub proof fn lemma_mul_bound(a: int, b: int, la: int, lb: int)
    requires
        -la <= a <= la,
        -lb <= b <= lb,
    ensures
        -(la * lb) <= a * b <= la * lb,
{
    assert(-(la * lb) <= a * b <= la * lb) by (nonlinear_arith)
        requires
            -la <= a <= la,
            -lb <= b <= lb,
    ;
}

pub proof fn lemma_div_trunc_bound(a: int, d: int, l: int)
    requires
        d > 0,
        -l <= a <= l,
    ensures
        -l <= div_trunc(a, d) <= l,
        a >= 0 ==> div_trunc(a, d) >= 0,
        a <= 0 ==> div_trunc(a, d) <= 0,
{
    if a >= 0 {
        assert(a / d <= a) by (nonlinear_arith)
            requires
                a >= 0,
                d > 0,
        ;
        assert(a / d >= 0) by (nonlinear_arith)
            requires
                a >= 0,
                d > 0,
        ;
    } else {
        let b = -a;
        assert(b / d <= b) by (nonlinear_arith)
            requires
                b >= 0,
                d > 0,
        ;
        assert(b / d >= 0) by (nonlinear_arith)
            requires
                b >= 0,
                d > 0,
        ;
    }
}

pub proof fn lemma_floor_sqrt_unique(n: int, a: int, b: int)
    requires
        is_floor_sqrt(a, n),
        is_floor_sqrt(b, n),
    ensures
        a == b,
{
    if a < b {
        assert((a + 1) * (a + 1) <= b * b) by (nonlinear_arith)
            requires
                0 <= a < b,
        ;
    } else if b < a {
        assert((b + 1) * (b + 1) <= a * a) by (nonlinear_arith)
            requires
                0 <= b < a,
        ;
    }
}

pub proof fn lemma_floor_sqrt_is(n: int, r: int)
    requires
        is_floor_sqrt(r, n),
    ensures
        floor_sqrt(n) == r,
{
    let s = floor_sqrt(n);
    assert(is_floor_sqrt(s, n));
    lemma_floor_sqrt_unique(n, r, s);
}

/// `a / d` rounded toward zero.
pub fn div_trunc_exec(a: i128, d: i128) -> (r: i128)
    requires
        d > 0,
        a > i128::MIN,
    ensures
        r == div_trunc(a as int, d as int),
{
    if a >= 0 {
        a / d
    } else {
        let b: i128 = -a;
        proof {
            lemma_div_trunc_bound(b as int, d as int, b as int);
        }
        -(b / d)
    }
}

/// The largest integer whose square does not exceed `n`.
pub fn floor_sqrt_exec(n: u128) -> (r: u64)
    ensures
        is_floor_sqrt(r as int, n as int),
        r as int == floor_sqrt(n as int),
{
    let mut lo: u128 = 0;
    let mut hi: u128 = 0x1_0000_0000_0000_0000;
    while hi - lo > 1
        invariant
            lo < hi <= 0x1_0000_0000_0000_0000,
            lo * lo <= n,
            n < hi * hi,
        decreases hi - lo,
    {
        let mid: u128 = lo + (hi - lo) / 2;
        assert(mid * mid < 0x1_0000_0000_0000_0000 * 0x1_0000_0000_0000_0000) by (nonlinear_arith)
            requires
                mid < 0x1_0000_0000_0000_0000,
        ;
        if mid * mid <= n {
            lo = mid;
        } else {
            hi = mid;
        }
    }
    proof {
        lemma_floor_sqrt_is(n as int, lo as int);
    }
    lo as u64
}

/// Dividing a value bounded by `d * k` by `d` gives a value bounded by `k`.
pub proof fn lemma_div_trunc_scaled(a: int, d: int, k: int)
    requires
        d > 0,
        k >= 0,
        -(d * k) <= a <= d * k,
    ensures
        -k <= div_trunc(a, d) <= k,
{
    if a >= 0 {
        assert(a / d <= k) by (nonlinear_arith)
            requires
                0 <= a <= d * k,
                d > 0,
        ;
        assert(a / d >= 0) by (nonlinear_arith)
            requires
                0 <= a,
                d > 0,
        ;
    } else {
        let b = -a;
        assert(b / d <= k) by (nonlinear_arith)
            requires
                0 <= b <= d * k,
                d > 0,
        ;
        assert(b / d >= 0) by (nonlinear_arith)
            requires
                0 <= b,
                d > 0,
        ;
    }
}

/// The fixed-point product of a direction row and a coordinate vector.
fn row_times(row: Vec3, v: Vec3) -> (r: i64)
    requires
        row.is_direction(),
        v.is_coord(),
    ensures
        r as int == div_trunc(dot(row.point(), v.point()), UNIT as int),
        -3 * COORD_LIMIT <= r <= 3 * COORD_LIMIT,
{
    proof {
        lemma_mul_bound(row.x as int, v.x as int, UNIT as int, COORD_LIMIT as int);
        lemma_mul_bound(row.y as int, v.y as int, UNIT as int, COORD_LIMIT as int);
        lemma_mul_bound(row.z as int, v.z as int, UNIT as int, COORD_LIMIT as int);
    }
    let d: i128 = (row.x as i128) * (v.x as i128) + (row.y as i128) * (v.y as i128) + (row.z as i128)
        * (v.z as i128);
    let q = div_trunc_exec(d, UNIT as i128);
    proof {
        lemma_div_trunc_scaled(d as int, UNIT as int, 3 * COORD_LIMIT);
    }
    q as i64
}

/// `v` rotated by `r`.
pub fn rotate_exec(r: &Rotation, v: &Vec3) -> (out: Vec3)
    requires
        r.wf(),
        v.is_coord(),
    ensures
        out.point() == rotate(*r, v.point()),
        out.bounded(3 * COORD_LIMIT),
{
    Vec3 { x: row_times(r.row_x, *v), y: row_times(r.row_y, *v), z: row_times(r.row_z, *v) }
}

/// `v` turned within the horizontal plane by `t`, scaled by [`UNIT`].
pub fn turn_scaled_exec(t: &Turn, v: &Vec3) -> (out: Vec3)
    requires
        t.wf(),
        v.is_direction(),
    ensures
        out.point() == turn_scaled(*t, v.point()),
        out.bounded(2 * UNIT * UNIT),
{
    proof {
        lemma_mul_bound(t.cos as int, v.x as int, UNIT as int, UNIT as int);
        lemma_mul_bound(t.sin as int, v.z as int, UNIT as int, UNIT as int);
        lemma_mul_bound(t.sin as int, v.x as int, UNIT as int, UNIT as int);
        lemma_mul_bound(t.cos as int, v.z as int, UNIT as int, UNIT as int);
    }
    Vec3 {
        x: t.cos * v.x - t.sin * v.z,
        y: UNIT * v.y,
        z: t.sin * v.x + t.cos * v.z,
    }
}

} // verus!
