//! The approach tracker: turns paired carrier and plane samples into datums,
//! watches the distance trend, estimates the caught wire and grades the pass.
use vstd::prelude::*;
use vstd::string::StringSliceAdditionalSpecFns;
use vstd::utf8::encode_utf8;
use crate::geometry::{
    COORD_LIMIT, Point, UNIT, Vec3, minus, plus, times, div_trunc, div_trunc_exec, dot, floor_sqrt,
    floor_sqrt_exec, horizontal_len, lemma_div_trunc_scaled, lemma_mul_bound,
    rotate, rotate_exec, turn_scaled, turn_scaled_exec,
};
use crate::rig::{AirplaneInfo, CarrierInfo, RIG_LIMIT};
use crate::transform::Transform;

verus! {

/// How far, in millimetres, the distance to the aim point may grow past its
/// minimum before tracking ends.
pub const STOP_MARGIN: i64 = 100_000;

/// How far, in millimetres, the touchdown point is moved along the arrest axis
/// to make up for the late landing signal.
pub const TOUCHDOWN_SHIFT: i64 = 3_000;

/// One recorded approach sample.
#[derive(Clone, Copy, Debug, PartialEq, Eq, Structural)]
pub struct Datum {
    /// Distance along the landing-area centerline, in millimetres.
    pub x: i64,
    /// Signed deviation from the centerline, in millimetres.
    pub y: i64,
    /// Angle of attack, in hundredths of a degree.
    pub aoa: i64,
    /// Height of the hook above the deck, in millimetres, at least zero.
    pub alt: i64,
}

#[derive(Clone, Copy, Debug, PartialEq, Eq, Structural)]
pub enum Grading {
    Unknown,
    Bolter,
    Recovered { cable: Option<u8>, cable_estimated: Option<u8> },
}

impl Default for Grading {
    fn default() -> (r: Grading)
        ensures
            r == Grading::Unknown,
    {
        Grading::Unknown
    }
}

/// The state of the tracking of one carrier and plane pair.
pub struct Track {
    pilot_name: String,
    previous_distance: i64,
    datums: Vec<Datum>,
    grading: Option<Grading>,
    dcs_grading: Option<String>,
    carrier_info: CarrierInfo,
    plane_info: AirplaneInfo,
}

/// What a [`Track`] holds, as mathematical values.
pub struct TrackView {
    pub pilot_name: Seq<char>,
    /// The least distance to the aim point seen so far, in millimetres.
    pub previous_distance: int,
    pub datums: Seq<Datum>,
    pub grading: Option<Grading>,
    pub dcs_grading: Option<Seq<char>>,
    pub carrier: CarrierInfo,
    pub plane: AirplaneInfo,
}

/// The finished outcome of one tracked pass.
#[derive(Debug)]
pub struct TrackResult {
    pub pilot_name: String,
    /// The optimal glide slope, in tenths of a degree.
    pub glide_slope: i64,
    pub grading: Grading,
    pub dcs_grading: Option<String>,
    pub datums: Vec<Datum>,
}

pub open spec fn opt_view(s: Option<String>) -> Option<Seq<char>> {
    match s {
        Some(t) => Some(t@),
        None => None,
    }
}

impl View for Track {
    type V = TrackView;

    closed spec fn view(&self) -> TrackView {
        TrackView {
            pilot_name: self.pilot_name@,
            previous_distance: self.previous_distance as int,
            datums: self.datums@,
            grading: self.grading,
            dcs_grading: opt_view(self.dcs_grading),
            carrier: self.carrier_info,
            plane: self.plane_info,
        }
    }
}

/// Where the optimal glide path meets the deck of the carrier in sample `c`.
pub open spec fn aim_point(ci: CarrierInfo, pi: AirplaneInfo, c: Transform) -> Point {
    plus(c.position.point(), rotate(c.rotation, ci.landing_offset(pi)))
}

/// The horizontal ray from the plane to the aim point.
pub open spec fn approach_ray(ci: CarrierInfo, pi: AirplaneInfo, c: Transform, p: Transform) -> Point {
    let a = aim_point(ci, pi, c);
    Point { x: a.x - p.position.x, y: 0, z: a.z - p.position.z }
}

/// The horizontal distance from the plane to the aim point, in millimetres.
pub open spec fn aim_distance(ci: CarrierInfo, pi: AirplaneInfo, c: Transform, p: Transform) -> int {
    horizontal_len(approach_ray(ci, pi, c, p))
}

/// The landing-area centerline: the heading turned by the deck angle, scaled by `UNIT * UNIT`.
pub open spec fn centerline(ci: CarrierInfo, c: Transform) -> Point {
    turn_scaled(ci.deck_turn, c.heading_dir.point())
}

/// Distance along the centerline.
pub open spec fn along_track(ci: CarrierInfo, pi: AirplaneInfo, c: Transform, p: Transform) -> int {
    div_trunc(dot(approach_ray(ci, pi, c, p), centerline(ci, c)), UNIT * UNIT)
}

/// Positive when the aim point lies to the right of the centerline seen from the plane.
pub open spec fn side(ci: CarrierInfo, pi: AirplaneInfo, c: Transform, p: Transform) -> int {
    let f = centerline(ci, c);
    dot(approach_ray(ci, pi, c, p), Point { x: f.z, y: 0, z: -f.x })
}

/// Signed deviation from the centerline: `sqrt(distance² - x²)`, negated
/// when the plane is left of it.
pub open spec fn cross_track(ci: CarrierInfo, pi: AirplaneInfo, c: Transform, p: Transform) -> int {
    let d = aim_distance(ci, pi, c, p);
    let x = along_track(ci, pi, c, p);
    let m = floor_sqrt(if d * d >= x * x { d * d - x * x } else { 0 });
    if side(ci, pi, c, p) > 0 {
        -m
    } else {
        m
    }
}

/// Height of the hook above the deck, at least zero.
pub open spec fn hook_height(ci: CarrierInfo, pi: AirplaneInfo, p: Transform) -> int {
    let h = p.alt - ci.deck_altitude + rotate(p.rotation, pi.hook.point()).y;
    if h > 0 {
        h
    } else {
        0
    }
}

pub open spec fn datum_of(ci: CarrierInfo, pi: AirplaneInfo, c: Transform, p: Transform) -> Datum {
    Datum {
        x: along_track(ci, pi, c, p) as i64,
        y: cross_track(ci, pi, c, p) as i64,
        aoa: p.aoa,
        alt: hook_height(ci, pi, p) as i64,
    }
}

/// Whether tracking goes on after the samples `c` and `p`.
pub open spec fn continues(t: TrackView, c: Transform, p: Transform) -> bool {
    let d = aim_distance(t.carrier, t.plane, c, p);
    d < t.previous_distance || d - t.previous_distance <= STOP_MARGIN
}

/// The state of the track after the samples `c` and `p`.
pub open spec fn next_state(t: TrackView, c: Transform, p: Transform) -> TrackView {
    let d = aim_distance(t.carrier, t.plane, c, p);
    if !continues(t, c, p) {
        TrackView {
            grading: if t.grading is Some {
                Some(Grading::Bolter)
            } else {
                None
            },
            ..t
        }
    } else {
        let prev = if d < t.previous_distance {
            d
        } else {
            t.previous_distance
        };
        let datums = if t.grading is Some {
            t.datums
        } else {
            t.datums.push(datum_of(t.carrier, t.plane, c, p))
        };
        TrackView { previous_distance: prev, datums, ..t }
    }
}

/// The axis along which touchdown is compared with the wires, scaled by `UNIT * UNIT`.
pub open spec fn arrest_axis(ci: CarrierInfo, c: Transform) -> Point {
    turn_scaled(ci.arrest_turn, c.forward.point())
}

/// Where the hook of the plane in sample `p` is.
pub open spec fn hook_point(pi: AirplaneInfo, p: Transform) -> Point {
    plus(p.position.point(), rotate(p.rotation, pi.hook.point()))
}

/// The middle of wire `nr` of the carrier in sample `c`.
pub open spec fn cable_mid(ci: CarrierInfo, c: Transform, nr: int) -> Point {
    plus(c.position.point(), rotate(c.rotation, ci.cable(nr).mid()))
}

/// The ray from the middle of wire `nr` to the touchdown point, the latter
/// shifted by `TOUCHDOWN_SHIFT` along the arrest axis; scaled by `UNIT * UNIT`.
pub open spec fn cable_ray(ci: CarrierInfo, pi: AirplaneInfo, c: Transform, p: Transform, nr: int) -> Point {
    plus(
        times(minus(hook_point(pi, p), cable_mid(ci, c, nr)), UNIT * UNIT),
        times(arrest_axis(ci, c), TOUCHDOWN_SHIFT as int),
    )
}

/// Whether wire `nr` counts as caught: the ray from it to the touchdown point
/// points along the arrest axis.
pub open spec fn cable_ahead(ci: CarrierInfo, pi: AirplaneInfo, c: Transform, p: Transform, nr: int) -> bool {
    dot(cable_ray(ci, pi, c, p, nr), arrest_axis(ci, c)) > 0
}

/// The lowest-numbered wire that counts as caught, if any.
pub open spec fn estimated_cable(ci: CarrierInfo, pi: AirplaneInfo, c: Transform, p: Transform) -> Option<u8> {
    if cable_ahead(ci, pi, c, p, 1) {
        Some(1u8)
    } else if cable_ahead(ci, pi, c, p, 2) {
        Some(2u8)
    } else if cable_ahead(ci, pi, c, p, 3) {
        Some(3u8)
    } else if cable_ahead(ci, pi, c, p, 4) {
        Some(4u8)
    } else {
        None
    }
}

/// The bytes of the marker that precedes the wire number in a grading text: `WIRE# `.
pub open spec fn wire_marker() -> Seq<u8> {
    seq![87u8, 73u8, 82u8, 69u8, 35u8, 32u8]
}

pub open spec fn marker_at(b: Seq<u8>, i: int) -> bool {
    0 <= i && i + 6 <= b.len() && b.subrange(i, i + 6) == wire_marker()
}

pub open spec fn is_digit(c: u8) -> bool {
    48 <= c <= 57
}

/// A one- or two-digit decimal number at `j`, not followed by a further digit.
pub open spec fn number_at(b: Seq<u8>, j: int) -> Option<u8> {
    if 0 <= j < b.len() && is_digit(b[j]) {
        if j + 1 < b.len() && is_digit(b[j + 1]) {
            if j + 2 < b.len() && is_digit(b[j + 2]) {
                None
            } else {
                Some((10 * (b[j] - 48) + (b[j + 1] - 48)) as u8)
            }
        } else {
            Some((b[j] - 48) as u8)
        }
    } else {
        None
    }
}

/// The wire number that a grading text reports: the number right after the
/// first `WIRE# `.
pub open spec fn wire_number(b: Seq<u8>) -> Option<u8> {
    if exists|i: int| marker_at(b, i) {
        let i = choose|i: int| marker_at(b, i) && forall|k: int| 0 <= k < i ==> !marker_at(b, k);
        number_at(b, i + 6)
    } else {
        None
    }
}

/// The grading that finishing a track in state `t` gives.
pub open spec fn final_grading(t: TrackView) -> Grading {
    let reported = match t.dcs_grading {
        Some(g) => wire_number(encode_utf8(g)),
        None => None,
    };
    match reported {
        Some(w) => Grading::Recovered {
            cable: Some(w),
            cable_estimated: match t.grading {
                Some(Grading::Recovered { cable, .. }) => cable,
                _ => None,
            },
        },
        None => match t.grading {
            Some(Grading::Recovered { cable, .. }) => Grading::Recovered { cable, cable_estimated: None },
            Some(g) => g,
            None => Grading::Unknown,
        },
    }
}

/// The state of the track after a touchdown at samples `c` and `p`.
pub open spec fn landed_state(t: TrackView, c: Transform, p: Transform) -> TrackView {
    let cable = estimated_cable(t.carrier, t.plane, c, p);
    TrackView { grading: Some(Grading::Recovered { cable, cable_estimated: cable }), ..t }
}

/// The state of a new track.
pub open spec fn new_track(pilot_name: Seq<char>, ci: CarrierInfo, pi: AirplaneInfo) -> TrackView {
    TrackView {
        pilot_name,
        previous_distance: i64::MAX as int,
        datums: Seq::empty(),
        grading: None,
        dcs_grading: None,
        carrier: ci,
        plane: pi,
    }
}

/// Every pair of `samples` continues the tracking, one after the other from state `t`.
pub open spec fn all_continue(t: TrackView, samples: Seq<(Transform, Transform)>) -> bool
    decreases samples.len(),
{
    samples.len() == 0 || (continues(t, samples[0].0, samples[0].1) && all_continue(
        next_state(t, samples[0].0, samples[0].1),
        samples.drop_first(),
    ))
}

/// The distance to the aim point never grows along `samples`, starting from
/// the least distance that `t` has seen.
pub open spec fn closing_in(t: TrackView, samples: Seq<(Transform, Transform)>) -> bool {
    forall|i: int|
        0 <= i < samples.len() ==> aim_distance(t.carrier, t.plane, #[trigger] samples[i].0, samples[i].1) <= (
        if i == 0 {
            t.previous_distance
        } else {
            aim_distance(t.carrier, t.plane, samples[i - 1].0, samples[i - 1].1)
        })
}

/// While the distance to the aim point does not grow, tracking never stops.
pub proof fn lemma_closing_in_never_stops(t: TrackView, samples: Seq<(Transform, Transform)>)
    requires
        closing_in(t, samples),
    ensures
        all_continue(t, samples),
    decreases samples.len(),
{
    if samples.len() > 0 {
        let (c, p) = samples[0];
        let n = next_state(t, c, p);
        let rest = samples.drop_first();
        assert(aim_distance(t.carrier, t.plane, c, p) <= t.previous_distance);
        assert(n.previous_distance == aim_distance(t.carrier, t.plane, c, p));
        assert forall|i: int| 0 <= i < rest.len() implies aim_distance(
            n.carrier,
            n.plane,
            #[trigger] rest[i].0,
            rest[i].1,
        ) <= (if i == 0 {
            n.previous_distance
        } else {
            aim_distance(n.carrier, n.plane, rest[i - 1].0, rest[i - 1].1)
        }) by {
            assert(rest[i] == samples[i + 1]);
            if i > 0 {
                assert(rest[i - 1] == samples[i]);
            }
        }
        lemma_closing_in_never_stops(n, rest);
    }
}

/// The wire chosen is the lowest-numbered one that counts as caught: when wire
/// `k` counts and no wire before it does, wire `k` is chosen, whatever the
/// wires after it.
pub proof fn lemma_first_caught_wire_wins(
    ci: CarrierInfo,
    pi: AirplaneInfo,
    c: Transform,
    p: Transform,
    k: int,
)
    requires
        1 <= k <= 4,
        cable_ahead(ci, pi, c, p, k),
        forall|j: int| 1 <= j < k ==> !cable_ahead(ci, pi, c, p, j),
    ensures
        estimated_cable(ci, pi, c, p) == Some(k as u8),
{
    if k > 1 {
        assert(!cable_ahead(ci, pi, c, p, 1));
    }
    if k > 2 {
        assert(!cable_ahead(ci, pi, c, p, 2));
    }
    if k > 3 {
        assert(!cable_ahead(ci, pi, c, p, 3));
    }
}

/// A wire number in the reported grading text becomes the cable, whatever the
/// estimate was; an estimate made at touchdown is kept as `cable_estimated`.
pub proof fn lemma_reported_wire_overrides(t: TrackView, text: Seq<char>, w: u8)
    requires
        t.dcs_grading == Some(text),
        wire_number(encode_utf8(text)) == Some(w),
    ensures
        final_grading(t) matches Grading::Recovered { cable, cable_estimated } && cable == Some(w)
            && cable_estimated == (match t.grading {
            Some(Grading::Recovered { cable, .. }) => cable,
            _ => None,
        }),
{
}

/// Bound on a coordinate of the approach ray.
pub open spec fn ray_limit() -> int {
    60_000_000_000
}

impl Track {
    pub open spec fn wf(&self) -> bool {
        &&& self@.carrier.wf()
        &&& self@.plane.wf()
        &&& self@.previous_distance >= 0
    }

    pub fn new(pilot_name: &str, carrier_info: CarrierInfo, plane_info: AirplaneInfo) -> (r: Track)
        ensures
            r@ == new_track(pilot_name@, carrier_info, plane_info),
    {
        Track {
            pilot_name: pilot_name.to_owned(),
            previous_distance: i64::MAX,
            datums: Vec::new(),
            grading: None,
            dcs_grading: None,
            carrier_info,
            plane_info,
        }
    }

    /// Takes the next pair of samples; returns whether tracking goes on.
    pub fn next(&mut self, carrier: &Transform, plane: &Transform) -> (r: bool)
        requires
            old(self).wf(),
            carrier.wf(),
            plane.wf(),
        ensures
            final(self).wf(),
            r == continues(old(self)@, *carrier, *plane),
            final(self)@ == next_state(old(self)@, *carrier, *plane),
            !r ==> final(self)@.datums == old(self)@.datums,
            !r ==> final(self)@.grading == (if old(self)@.grading is Some {
                Some(Grading::Bolter)
            } else {
                None
            }),
    {
        let (rx, rz) = approach_ray_exec(&self.carrier_info, &self.plane_info, carrier, plane);
        let distance = horizontal_len_exec(rx, rz);
        if distance < self.previous_distance {
            self.previous_distance = distance;
        } else if distance - self.previous_distance > STOP_MARGIN {
            if self.grading.is_some() {
                self.grading = Some(Grading::Bolter);
            }
            return false;
        }
        if self.grading.is_some() {
            return true;
        }
        let d = datum_exec(&self.carrier_info, &self.plane_info, carrier, plane, rx, rz, distance);
        self.datums.push(d);
        true
    }

    /// Records the touchdown signalled at samples `carrier` and `plane`.
    pub fn landed(&mut self, carrier: &Transform, plane: &Transform)
        requires
            old(self).wf(),
            carrier.wf(),
            plane.wf(),
        ensures
            final(self).wf(),
            final(self)@ == landed_state(old(self)@, *carrier, *plane),
    {
        let cable = self.estimate_cable(carrier, plane);
        self.grading = Some(Grading::Recovered { cable, cable_estimated: cable });
    }

    /// Sets the grading text reported by the simulation.
    pub fn set_dcs_grading(&mut self, dcs_grading: String)
        ensures
            final(self)@ == (TrackView { dcs_grading: Some(dcs_grading@), ..old(self)@ }),
    {
        self.dcs_grading = Some(dcs_grading);
    }

    /// Finishes the track: a wire number in the reported grading text wins over
    /// the estimate, which is then kept as `cable_estimated`.
    pub fn finish(self) -> (r: TrackResult)
        ensures
            r.pilot_name@ == self@.pilot_name,
            r.glide_slope == self@.plane.glide_slope,
            r.grading == final_grading(self@),
            opt_view(r.dcs_grading) == self@.dcs_grading,
            r.datums@ == self@.datums,
    {
        let reported = match &self.dcs_grading {
            Some(g) => wire_from_grading(g.as_str()),
            None => None,
        };
        let grading = match reported {
            Some(w) => Grading::Recovered {
                cable: Some(w),
                cable_estimated: match self.grading {
                    Some(Grading::Recovered { cable, .. }) => cable,
                    _ => None,
                },
            },
            None => match self.grading {
                Some(Grading::Recovered { cable, .. }) => Grading::Recovered {
                    cable,
                    cable_estimated: None,
                },
                Some(g) => g,
                None => Grading::default(),
            },
        };
        TrackResult {
            pilot_name: self.pilot_name,
            glide_slope: self.plane_info.glide_slope,
            grading,
            dcs_grading: self.dcs_grading,
            datums: self.datums,
        }
    }

    /// The wire that the hook of `plane` caught: the lowest-numbered one whose
    /// middle lies ahead of the touchdown point along the arrest axis.
    pub fn estimate_cable(&self, carrier: &Transform, plane: &Transform) -> (r: Option<u8>)
        requires
            self.wf(),
            carrier.wf(),
            plane.wf(),
        ensures
            r == estimated_cable(self@.carrier, self@.plane, *carrier, *plane),
    {
        let ci = &self.carrier_info;
        let pi = &self.plane_info;
        let axis = turn_scaled_exec(&ci.arrest_turn, &carrier.forward);
        let hook = rotate_exec(&plane.rotation, &pi.hook);
        let touchdown = Vec3 {
            x: plane.position.x + hook.x,
            y: plane.position.y + hook.y,
            z: plane.position.z + hook.z,
        };
        let mut nr: u8 = 1;
        while nr <= 4
            invariant
                1 <= nr <= 5,
                ci.wf(),
                pi.wf(),
                carrier.wf(),
                plane.wf(),
                *ci == self@.carrier,
                *pi == self@.plane,
                axis.point() == arrest_axis(*ci, *carrier),
                axis.bounded(2 * UNIT * UNIT),
                touchdown.point() == hook_point(*pi, *plane),
                touchdown.bounded(4 * COORD_LIMIT),
                forall|k: int| 1 <= k < nr ==> !cable_ahead(*ci, *pi, *carrier, *plane, k),
            decreases 5 - nr,
        {
            if cable_ahead_exec(ci, carrier, &axis, &touchdown, nr) {
                proof {
                    assert(cable_ahead(*ci, *pi, *carrier, *plane, nr as int));
                }
                return Some(nr);
            }
            nr = nr + 1;
        }
        None
    }
}

/// The approach ray's `x` and `z`.
fn approach_ray_exec(ci: &CarrierInfo, pi: &AirplaneInfo, c: &Transform, p: &Transform) -> (r: (
    i64,
    i64,
))
    requires
        ci.wf(),
        pi.wf(),
        c.wf(),
        p.wf(),
    ensures
        r.0 == approach_ray(*ci, *pi, *c, *p).x,
        r.1 == approach_ray(*ci, *pi, *c, *p).z,
        -ray_limit() <= r.0 <= ray_limit(),
        -ray_limit() <= r.1 <= ray_limit(),
{
    let off = ci.optimal_landing_offset(pi);
    let rot = rotate_exec(&c.rotation, &off);
    let ax = c.position.x + rot.x;
    let az = c.position.z + rot.z;
    (ax - p.position.x, az - p.position.z)
}

/// The floor of the length of `(x, z)`.
fn horizontal_len_exec(x: i64, z: i64) -> (r: i64)
    requires
        -ray_limit() <= x <= ray_limit(),
        -ray_limit() <= z <= ray_limit(),
    ensures
        r == horizontal_len(Point { x: x as int, y: 0, z: z as int }),
        0 <= r <= 2 * ray_limit(),
{
    proof {
        lemma_mul_bound(x as int, x as int, ray_limit(), ray_limit());
        lemma_mul_bound(z as int, z as int, ray_limit(), ray_limit());
        assert(x * x >= 0) by (nonlinear_arith);
        assert(z * z >= 0) by (nonlinear_arith);
    }
    let n: u128 = ((x as i128) * (x as i128) + (z as i128) * (z as i128)) as u128;
    let r = floor_sqrt_exec(n);
    proof {
        let b = 2 * ray_limit();
        if r as int > b {
            assert((r as int) * (r as int) > b * b) by (nonlinear_arith)
                requires
                    r as int > b,
                    b > 0,
            ;
        }
    }
    r as i64
}

/// The datum of samples `c` and `p`, given the approach ray's `x` and `z` and
/// the distance to the aim point.
fn datum_exec(
    ci: &CarrierInfo,
    pi: &AirplaneInfo,
    c: &Transform,
    p: &Transform,
    rx: i64,
    rz: i64,
    distance: i64,
) -> (r: Datum)
    requires
        ci.wf(),
        pi.wf(),
        c.wf(),
        p.wf(),
        rx == approach_ray(*ci, *pi, *c, *p).x,
        rz == approach_ray(*ci, *pi, *c, *p).z,
        -ray_limit() <= rx <= ray_limit(),
        -ray_limit() <= rz <= ray_limit(),
        distance == aim_distance(*ci, *pi, *c, *p),
        0 <= distance <= 2 * ray_limit(),
    ensures
        r == datum_of(*ci, *pi, *c, *p),
{
    let f = turn_scaled_exec(&ci.deck_turn, &c.heading_dir);
    let ghost fb = centerline(*ci, *c);
    let ghost lim = 2 * UNIT * UNIT;
    proof {
        lemma_mul_bound(rx as int, f.x as int, ray_limit(), lim);
        lemma_mul_bound(rz as int, f.z as int, ray_limit(), lim);
        assert(0 * fb.y == 0);
    }
    let along: i128 = (rx as i128) * (f.x as i128) + (rz as i128) * (f.z as i128);
    let x = div_trunc_exec(along, (UNIT as i128) * (UNIT as i128));
    proof {
        lemma_div_trunc_scaled(along as int, UNIT * UNIT, 2 * ray_limit() * 2);
        assert(2 * ray_limit() * lim == UNIT * UNIT * (2 * ray_limit() * 2));
    }
    proof {
        lemma_mul_bound(rx as int, f.z as int, ray_limit(), lim);
        lemma_mul_bound(rz as int, f.x as int, ray_limit(), lim);
    }
    let lateral: i128 = (rx as i128) * (f.z as i128) - (rz as i128) * (f.x as i128);
    proof {
        lemma_mul_bound(distance as int, distance as int, 2 * ray_limit(), 2 * ray_limit());
        lemma_mul_bound(x as int, x as int, 4 * ray_limit(), 4 * ray_limit());
        assert(x * x >= 0) by (nonlinear_arith);
        assert(distance * distance >= 0) by (nonlinear_arith);
    }
    assert((2 * ray_limit()) * (2 * ray_limit()) == 14_400_000_000_000_000_000_000) by (nonlinear_arith);
    assert((4 * ray_limit()) * (4 * ray_limit()) == 57_600_000_000_000_000_000_000) by (nonlinear_arith);
    let dd: i128 = (distance as i128) * (distance as i128);
    let xx: i128 = x * x;
    let rest: i128 = if dd >= xx {
        dd - xx
    } else {
        0
    };
    let m = floor_sqrt_exec(rest as u128);
    proof {
        let b = 2 * ray_limit();
        if m as int > b {
            assert((m as int) * (m as int) > b * b) by (nonlinear_arith)
                requires
                    m as int > b,
                    b > 0,
            ;
        }
    }
    proof {
        assert((rz as int) * (-(f.x as int)) == -((rz as int) * (f.x as int))) by (nonlinear_arith);
        assert(lateral as int == side(*ci, *pi, *c, *p));
        assert(m as int == floor_sqrt(rest as int));
    }
    let y: i64 = if lateral > 0 {
        -(m as i64)
    } else {
        m as i64
    };
    let hook = rotate_exec(&p.rotation, &pi.hook);
    let h = p.alt - ci.deck_altitude + hook.y;
    let alt = if h > 0 {
        h
    } else {
        0
    };
    proof {
        assert(x == along_track(*ci, *pi, *c, *p));
        assert(y == cross_track(*ci, *pi, *c, *p));
        assert(alt == hook_height(*ci, *pi, *p));
    }
    Datum { x: x as i64, y, aoa: p.aoa, alt }
}

/// The middle of wire `nr`.
fn cable_mid_offset(ci: &CarrierInfo, nr: u8) -> (r: Vec3)
    requires
        ci.wf(),
        1 <= nr <= 4,
    ensures
        r.point() == ci.cable(nr as int).mid(),
        r.bounded(2 * RIG_LIMIT),
{
    let p = if nr == 1 {
        ci.cable1
    } else if nr == 2 {
        ci.cable2
    } else if nr == 3 {
        ci.cable3
    } else {
        ci.cable4
    };
    Vec3 {
        x: p.left.x - half(p.left.x - p.right.x),
        y: p.left.y - half(p.left.y - p.right.y),
        z: p.left.z - half(p.left.z - p.right.z),
    }
}

/// Half of `a`, rounded toward zero.
fn half(a: i64) -> (r: i64)
    requires
        -2 * RIG_LIMIT <= a <= 2 * RIG_LIMIT,
    ensures
        r == div_trunc(a as int, 2),
        -RIG_LIMIT <= r <= RIG_LIMIT,
{
    if a >= 0 {
        a / 2
    } else {
        -((-a) / 2)
    }
}

/// Whether wire `nr` counts as caught, given the arrest axis and the hook point.
fn cable_ahead_exec(ci: &CarrierInfo, c: &Transform, axis: &Vec3, touchdown: &Vec3, nr: u8) -> (r: bool)
    requires
        ci.wf(),
        c.wf(),
        1 <= nr <= 4,
        axis.point() == arrest_axis(*ci, *c),
        axis.bounded(2 * UNIT * UNIT),
        touchdown.bounded(4 * COORD_LIMIT),
    ensures
        r == (dot(
            plus(
                times(minus(touchdown.point(), cable_mid(*ci, *c, nr as int)), UNIT * UNIT),
                times(arrest_axis(*ci, *c), TOUCHDOWN_SHIFT as int),
            ),
            arrest_axis(*ci, *c),
        ) > 0),
{
    let mid = cable_mid_offset(ci, nr);
    let rot = rotate_exec(&c.rotation, &mid);
    let m = Vec3 { x: c.position.x + rot.x, y: c.position.y + rot.y, z: c.position.z + rot.z };
    let ghost s = (UNIT * UNIT) as int;
    let ghost dl = 8 * COORD_LIMIT;
    let ghost al = 2 * UNIT * UNIT;
    let ghost rl = 8 * COORD_LIMIT * UNIT * UNIT + 2 * UNIT * UNIT * 3000;
    let dx = (touchdown.x - m.x) as i128;
    let dy = (touchdown.y - m.y) as i128;
    let dz = (touchdown.z - m.z) as i128;
    proof {
        lemma_mul_bound(dx as int, s, dl, s);
        lemma_mul_bound(dy as int, s, dl, s);
        lemma_mul_bound(dz as int, s, dl, s);
        lemma_mul_bound(axis.x as int, 3000, al, 3000);
        lemma_mul_bound(axis.y as int, 3000, al, 3000);
        lemma_mul_bound(axis.z as int, 3000, al, 3000);
    }
    let k: i128 = (UNIT as i128) * (UNIT as i128);
    let rx: i128 = dx * k + (axis.x as i128) * (TOUCHDOWN_SHIFT as i128);
    let ry: i128 = dy * k + (axis.y as i128) * (TOUCHDOWN_SHIFT as i128);
    let rz: i128 = dz * k + (axis.z as i128) * (TOUCHDOWN_SHIFT as i128);
    proof {
        lemma_mul_bound(rx as int, axis.x as int, rl, al);
        lemma_mul_bound(ry as int, axis.y as int, rl, al);
        lemma_mul_bound(rz as int, axis.z as int, rl, al);
        assert(3 * (rl * al) < 0x7fff_ffff_ffff_ffff_ffff_ffff_ffff_ffff) by (nonlinear_arith)
            requires
                rl == 8 * COORD_LIMIT * UNIT * UNIT + 2 * UNIT * UNIT * 3000,
                al == 2 * UNIT * UNIT,
        ;
    }
    let d: i128 = rx * (axis.x as i128) + ry * (axis.y as i128) + rz * (axis.z as i128);
    d > 0
}

/// The wire number that a grading text reports: the one- or two-digit number
/// right after the first `WIRE# `, not followed by a further digit.
pub fn wire_from_grading(text: &str) -> (r: Option<u8>)
    ensures
        r == wire_number(text.spec_bytes()),
{
    let b = text.as_bytes();
    let n = b.len();
    let mut i: usize = 0;
    while n >= 6 && i <= n - 6
        invariant
            b@ == text.spec_bytes(),
            n == b@.len(),
            i <= n,
            forall|k: int| 0 <= k < i ==> !marker_at(b@, k),
        decreases n - i,
    {
        if b[i] == 87u8 && b[i + 1] == 73u8 && b[i + 2] == 82u8 && b[i + 3] == 69u8 && b[i + 4]
            == 35u8 && b[i + 5] == 32u8 {
            proof {
                assert(b@.subrange(i as int, i + 6) =~= wire_marker());
                assert(marker_at(b@, i as int));
                let c = choose|j: int| marker_at(b@, j) && forall|k: int| 0 <= k < j ==> !marker_at(b@, k);
                assert(marker_at(b@, c) && forall|k: int| 0 <= k < c ==> !marker_at(b@, k));
                assert(c == i);
            }
            return number_from(b, i + 6);
        }
        proof {
            if marker_at(b@, i as int) {
                assert(b@.subrange(i as int, i + 6)[0] == b@[i as int]);
                assert(b@.subrange(i as int, i + 6)[1] == b@[i + 1]);
                assert(b@.subrange(i as int, i + 6)[2] == b@[i + 2]);
                assert(b@.subrange(i as int, i + 6)[3] == b@[i + 3]);
                assert(b@.subrange(i as int, i + 6)[4] == b@[i + 4]);
                assert(b@.subrange(i as int, i + 6)[5] == b@[i + 5]);
            }
        }
        i = i + 1;
    }
    proof {
        assert forall|k: int| !marker_at(b@, k) by {
            if marker_at(b@, k) {
                assert(k < i);
            }
        }
    }
    None
}

fn number_from(b: &[u8], j: usize) -> (r: Option<u8>)
    requires
        j <= b@.len(),
    ensures
        r == number_at(b@, j as int),
{
    let n = b.len();
    if j < n && 48 <= b[j] && b[j] <= 57 {
        if j + 1 < n && 48 <= b[j + 1] && b[j + 1] <= 57 {
            if j + 2 < n && 48 <= b[j + 2] && b[j + 2] <= 57 {
                None
            } else {
                Some(10 * (b[j] - 48) + (b[j + 1] - 48))
            }
        } else {
            Some(b[j] - 48)
        }
    } else {
        None
    }
}

} // verus!
