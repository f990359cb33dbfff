//! Merge rules of the replay log: sparse coordinate records, a monotonic frame
//! clock, the order of two independently timed samples and the end of a
//! recording.
use vstd::prelude::*;
use crate::geometry::COORD_LIMIT;
use crate::transform::Transform;

verus! {

/// Coordinates of one entity in one log record; an absent field is unchanged
/// since its last written value.
#[derive(Clone, Copy, Debug, PartialEq, Eq, Structural)]
pub struct Coords {
    /// Longitude relative to the reference, in 1e-7 degrees.
    pub longitude: Option<i64>,
    /// Latitude relative to the reference, in 1e-7 degrees.
    pub latitude: Option<i64>,
    /// Altitude in millimetres.
    pub altitude: Option<i64>,
    /// Flat-world x (east), in millimetres.
    pub u: Option<i64>,
    /// Flat-world y (north), in millimetres.
    pub v: Option<i64>,
    /// Tenths of a degree.
    pub roll: Option<i64>,
    /// Tenths of a degree.
    pub pitch: Option<i64>,
    /// Tenths of a degree.
    pub yaw: Option<i64>,
    /// Tenths of a degree.
    pub heading: Option<i64>,
}

/// Least change of latitude or longitude that is written, in 1e-7 degrees.
pub const LAT_LON_EPSILON: i64 = 1;

/// Least change of altitude or position that is written, in millimetres.
pub const POSITION_EPSILON: i64 = 10;

/// Least change of an angle that is written, in tenths of a degree.
pub const ANGLE_EPSILON: i64 = 1;

/// Longest gap, in hundredths of a second, between two samples written in one frame.
pub const SAME_FRAME: i64 = 1;

/// How long recording goes on after a landing, in hundredths of a second.
pub const GRACE_PERIOD: i64 = 1_000;

pub open spec fn field_changed(a: Option<i64>, b: Option<i64>, theta: int) -> bool {
    match (a, b) {
        (Some(x), Some(y)) => x - y >= theta || y - x >= theta,
        (None, None) => false,
        _ => true,
    }
}

/// What is written of a field: its value where it changed, else nothing.
pub open spec fn kept(a: Option<i64>, b: Option<i64>, theta: int) -> Option<i64> {
    if field_changed(a, b, theta) {
        a
    } else {
        None
    }
}

/// What is remembered of a field: its new value where it changed, else the old one.
pub open spec fn remembered(a: Option<i64>, b: Option<i64>, theta: int) -> Option<i64> {
    if field_changed(a, b, theta) {
        a
    } else {
        b
    }
}

/// The fields of `c` that changed from `k`.
pub open spec fn sparse(c: Coords, k: Coords) -> Coords {
    Coords {
        longitude: kept(c.longitude, k.longitude, LAT_LON_EPSILON as int),
        latitude: kept(c.latitude, k.latitude, LAT_LON_EPSILON as int),
        altitude: kept(c.altitude, k.altitude, POSITION_EPSILON as int),
        u: kept(c.u, k.u, POSITION_EPSILON as int),
        v: kept(c.v, k.v, POSITION_EPSILON as int),
        roll: kept(c.roll, k.roll, ANGLE_EPSILON as int),
        pitch: kept(c.pitch, k.pitch, ANGLE_EPSILON as int),
        yaw: kept(c.yaw, k.yaw, ANGLE_EPSILON as int),
        heading: kept(c.heading, k.heading, ANGLE_EPSILON as int),
    }
}

/// The last written values after writing `sparse(c, k)`.
pub open spec fn merged(c: Coords, k: Coords) -> Coords {
    Coords {
        longitude: remembered(c.longitude, k.longitude, LAT_LON_EPSILON as int),
        latitude: remembered(c.latitude, k.latitude, LAT_LON_EPSILON as int),
        altitude: remembered(c.altitude, k.altitude, POSITION_EPSILON as int),
        u: remembered(c.u, k.u, POSITION_EPSILON as int),
        v: remembered(c.v, k.v, POSITION_EPSILON as int),
        roll: remembered(c.roll, k.roll, ANGLE_EPSILON as int),
        pitch: remembered(c.pitch, k.pitch, ANGLE_EPSILON as int),
        yaw: remembered(c.yaw, k.yaw, ANGLE_EPSILON as int),
        heading: remembered(c.heading, k.heading, ANGLE_EPSILON as int),
    }
}

pub open spec fn or_else(a: Option<i64>, b: Option<i64>) -> Option<i64> {
    match a {
        Some(x) => Some(x),
        None => b,
    }
}

/// What a reader of the log knows after reading record `u` on top of `k`.
pub open spec fn applied(k: Coords, u: Coords) -> Coords {
    Coords {
        longitude: or_else(u.longitude, k.longitude),
        latitude: or_else(u.latitude, k.latitude),
        altitude: or_else(u.altitude, k.altitude),
        u: or_else(u.u, k.u),
        v: or_else(u.v, k.v),
        roll: or_else(u.roll, k.roll),
        pitch: or_else(u.pitch, k.pitch),
        yaw: or_else(u.yaw, k.yaw),
        heading: or_else(u.heading, k.heading),
    }
}

pub open spec fn no_fields() -> Coords {
    Coords {
        longitude: None,
        latitude: None,
        altitude: None,
        u: None,
        v: None,
        roll: None,
        pitch: None,
        yaw: None,
        heading: None,
    }
}

/// Every field is present.
pub open spec fn complete(c: Coords) -> bool {
    &&& c.longitude is Some
    &&& c.latitude is Some
    &&& c.altitude is Some
    &&& c.u is Some
    &&& c.v is Some
    &&& c.roll is Some
    &&& c.pitch is Some
    &&& c.yaw is Some
    &&& c.heading is Some
}

pub open spec fn snapped_field(a: Option<i64>) -> bool {
    match a {
        Some(x) => (x as int) % (POSITION_EPSILON as int) == 0,
        None => true,
    }
}

/// Altitude and position are whole centimetres, the precision they are sampled at.
pub open spec fn snapped(c: Coords) -> bool {
    snapped_field(c.altitude) && snapped_field(c.u) && snapped_field(c.v)
}

/// The record written for `c`, given what was last written.
pub open spec fn record_of(c: Coords, known: Option<Coords>) -> Coords {
    match known {
        Some(k) => sparse(c, k),
        None => c,
    }
}

/// What is remembered after writing `c`.
pub open spec fn known_after(c: Coords, known: Option<Coords>) -> Coords {
    match known {
        Some(k) => merged(c, k),
        None => c,
    }
}

/// Whether a field changed from its last written value by at least `theta`;
/// a field that is present on one side only has changed.
pub fn changed_precision(a: Option<i64>, b: Option<i64>, theta: i64) -> (r: bool)
    ensures
        r == field_changed(a, b, theta as int),
{
    match (a, b) {
        (Some(x), Some(y)) => (x as i128) - (y as i128) >= theta as i128 || (y as i128) - (x as i128)
            >= theta as i128,
        (None, None) => false,
        _ => true,
    }
}

/// Clears the fields of `coords` that have not changed from `known`, and
/// remembers the written ones in `known`; the first record is written whole.
pub fn remove_unchanged(coords: Coords, known: &mut Option<Coords>) -> (r: Coords)
    ensures
        r == record_of(coords, *old(known)),
        *final(known) == Some(known_after(coords, *old(known))),
{
    match known {
        Some(k) => {
            let mut c = coords;
            if changed_precision(c.longitude, k.longitude, LAT_LON_EPSILON) {
                k.longitude = c.longitude;
            } else {
                c.longitude = None;
            }
            if changed_precision(c.latitude, k.latitude, LAT_LON_EPSILON) {
                k.latitude = c.latitude;
            } else {
                c.latitude = None;
            }
            if changed_precision(c.altitude, k.altitude, POSITION_EPSILON) {
                k.altitude = c.altitude;
            } else {
                c.altitude = None;
            }
            if changed_precision(c.u, k.u, POSITION_EPSILON) {
                k.u = c.u;
            } else {
                c.u = None;
            }
            if changed_precision(c.v, k.v, POSITION_EPSILON) {
                k.v = c.v;
            } else {
                c.v = None;
            }
            if changed_precision(c.roll, k.roll, ANGLE_EPSILON) {
                k.roll = c.roll;
            } else {
                c.roll = None;
            }
            if changed_precision(c.pitch, k.pitch, ANGLE_EPSILON) {
                k.pitch = c.pitch;
            } else {
                c.pitch = None;
            }
            if changed_precision(c.yaw, k.yaw, ANGLE_EPSILON) {
                k.yaw = c.yaw;
            } else {
                c.yaw = None;
            }
            if changed_precision(c.heading, k.heading, ANGLE_EPSILON) {
                k.heading = c.heading;
            } else {
                c.heading = None;
            }
            c
        },
        None => {
            *known = Some(coords);
            coords
        },
    }
}

/// Writing the same coordinates twice in a row writes no field the second time.
pub proof fn lemma_repeat_writes_nothing(c: Coords, known: Option<Coords>)
    ensures
        record_of(c, Some(known_after(c, known))) == no_fields(),
{
}

/// A reader that applies each record on top of what it knew reconstructs the
/// written coordinates exactly, and ends up knowing what the writer remembers,
/// for complete coordinates at their sampled precision. So both sides see the
/// same sequence of samples, one record at a time.
pub proof fn lemma_reader_reconstructs(c: Coords, known: Option<Coords>, reader: Coords)
    requires
        complete(c),
        snapped(c),
        known matches Some(k) ==> snapped(k) && k == reader,
    ensures
        applied(reader, record_of(c, known)) == c,
        known_after(c, known) == c,
{
}

/// The records written for the samples `cs`, one after the other.
pub open spec fn written(known: Option<Coords>, cs: Seq<Coords>) -> Seq<Coords>
    decreases cs.len(),
{
    if cs.len() == 0 {
        Seq::empty()
    } else {
        seq![record_of(cs[0], known)] + written(Some(known_after(cs[0], known)), cs.drop_first())
    }
}

/// What a reader knows after each of the records `rs`.
pub open spec fn read(reader: Coords, rs: Seq<Coords>) -> Seq<Coords>
    decreases rs.len(),
{
    if rs.len() == 0 {
        Seq::empty()
    } else {
        let n = applied(reader, rs[0]);
        seq![n] + read(n, rs.drop_first())
    }
}

/// Reading back the log of a session gives the session's samples, one for one,
/// where the samples are complete and at their sampled precision: whatever
/// is derived from the samples live is derived alike from the log.
pub proof fn lemma_log_round_trip(cs: Seq<Coords>, reader: Coords)
    requires
        forall|i: int| 0 <= i < cs.len() ==> complete(#[trigger] cs[i]) && snapped(cs[i]),
    ensures
        read(reader, written(None, cs)) == cs,
{
    lemma_log_round_trip_from(cs, None, reader);
}

proof fn lemma_log_round_trip_from(cs: Seq<Coords>, known: Option<Coords>, reader: Coords)
    requires
        forall|i: int| 0 <= i < cs.len() ==> complete(#[trigger] cs[i]) && snapped(cs[i]),
        known matches Some(k) ==> snapped(k) && k == reader,
    ensures
        read(reader, written(known, cs)) == cs,
    decreases cs.len(),
{
    if cs.len() > 0 {
        let c = cs[0];
        let rest = cs.drop_first();
        lemma_reader_reconstructs(c, known, reader);
        assert forall|i: int| 0 <= i < rest.len() implies complete(#[trigger] rest[i]) && snapped(
            rest[i],
        ) by {
            assert(rest[i] == cs[i + 1]);
        }
        lemma_log_round_trip_from(rest, Some(c), c);
        let w = written(known, cs);
        assert(w[0] == record_of(c, known));
        assert(w.drop_first() =~= written(Some(c), rest));
        assert(read(reader, w) =~= seq![c] + read(c, written(Some(c), rest)));
        assert(read(reader, w) =~= cs);
    }
}

/// The coordinates of `t` as written to the log, relative to the reference
/// latitude and longitude.
pub open spec fn coords_spec(t: Transform, lat_ref: i64, lon_ref: i64) -> Coords {
    Coords {
        longitude: Some((t.lon - lon_ref) as i64),
        latitude: Some((t.lat - lat_ref) as i64),
        altitude: Some(t.alt),
        u: Some(t.position.x),
        v: Some(t.position.z),
        roll: Some(t.roll),
        pitch: Some(t.pitch),
        yaw: Some(t.yaw),
        heading: Some(t.heading),
    }
}

pub fn coords_of(t: &Transform, lat_ref: i64, lon_ref: i64) -> (r: Coords)
    requires
        t.wf(),
        -COORD_LIMIT <= lat_ref <= COORD_LIMIT,
        -COORD_LIMIT <= lon_ref <= COORD_LIMIT,
    ensures
        r == coords_spec(*t, lat_ref, lon_ref),
{
    Coords {
        longitude: Some(t.lon - lon_ref),
        latitude: Some(t.lat - lat_ref),
        altitude: Some(t.alt),
        u: Some(t.position.x),
        v: Some(t.position.z),
        roll: Some(t.roll),
        pitch: Some(t.pitch),
        yaw: Some(t.yaw),
        heading: Some(t.heading),
    }
}

pub open spec fn stamped(last: Option<i64>, time: i64) -> Option<i64> {
    match last {
        Some(l) => if time > l {
            Some(time)
        } else {
            None
        },
        None => Some(time),
    }
}

pub open spec fn clock_after(last: Option<i64>, time: i64) -> Option<i64> {
    match stamped(last, time) {
        Some(t) => Some(t),
        None => last,
    }
}

/// The frame clock of a log: frame times strictly increase.
pub struct FrameClock {
    pub last: Option<i64>,
}

impl FrameClock {
    pub fn new() -> (r: FrameClock)
        ensures
            r.last is None,
    {
        FrameClock { last: None }
    }

    /// The frame marker to write before an update at `time`: `time` itself when
    /// it is past every frame written so far, else none (the update joins the
    /// current frame).
    pub fn stamp(&mut self, time: i64) -> (r: Option<i64>)
        ensures
            r == stamped(old(self).last, time),
            final(self).last == clock_after(old(self).last, time),
            forall|l: i64| old(self).last == Some(l) ==> (r matches Some(t) ==> t > l),
    {
        match self.last {
            Some(l) if time <= l => None,
            _ => {
                self.last = Some(time);
                Some(time)
            },
        }
    }
}

/// In which order two samples are written.
#[derive(Clone, Copy, Debug, PartialEq, Eq, Structural)]
pub enum SampleOrder {
    /// One frame at the carrier's time holds both.
    Together,
    CarrierFirst,
    PlaneFirst,
}

pub open spec fn order_spec(carrier_time: int, plane_time: int) -> SampleOrder {
    if carrier_time - plane_time < SAME_FRAME && plane_time - carrier_time < SAME_FRAME {
        SampleOrder::Together
    } else if carrier_time < plane_time {
        SampleOrder::CarrierFirst
    } else {
        SampleOrder::PlaneFirst
    }
}

/// Samples less than `SAME_FRAME` apart share a frame; else the earlier is written first.
pub fn sample_order(carrier_time: i64, plane_time: i64) -> (r: SampleOrder)
    ensures
        r == order_spec(carrier_time as int, plane_time as int),
{
    let d = (carrier_time as i128) - (plane_time as i128);
    if d < SAME_FRAME as i128 && -d < SAME_FRAME as i128 {
        SampleOrder::Together
    } else if carrier_time < plane_time {
        SampleOrder::CarrierFirst
    } else {
        SampleOrder::PlaneFirst
    }
}

pub open spec fn stops(track_continues: bool, landed_at: Option<i64>, now: int) -> bool {
    !track_continues || match landed_at {
        Some(t) => now - t > GRACE_PERIOD,
        None => false,
    }
}

/// Whether a recording ends: the tracker stopped, or the grace period after a
/// landing has passed.
pub fn should_stop(track_continues: bool, landed_at: Option<i64>, now: i64) -> (r: bool)
    ensures
        r == stops(track_continues, landed_at, now as int),
{
    if !track_continues {
        return true;
    }
    match landed_at {
        Some(t) => (now as i128) - (t as i128) > GRACE_PERIOD as i128,
        None => false,
    }
}

} // verus!
