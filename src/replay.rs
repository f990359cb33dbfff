//! Re-deriving grades from a recorded replay log: one state per carrier and
//! plane pair, fed with the log's records in order.
use vstd::prelude::*;
use crate::gating::{is_recovery_attempt, recovery_attempt};
use crate::geometry::{COORD_LIMIT, Rotation, VELOCITY_LIMIT, Vec3, div_trunc, div_trunc_exec};
use crate::recording::Coords;
use crate::rig::{AirplaneInfo, CarrierInfo, airplane_of_type, carrier_of_type};
use crate::tags::TagSet;
use crate::track::{
    Grading, Track, TrackResult, TrackView, continues, final_grading, landed_state, new_track, next_state,
};
use crate::transform::Transform;

verus! {

/// What depends on an entity's orientation through trigonometry: worked out
/// by the reader of the log from the entity's current angles.
#[derive(Clone, Copy, Debug, PartialEq, Eq, Structural)]
pub struct Attitude {
    pub forward: Vec3,
    pub rotation: Rotation,
    pub heading_dir: Vec3,
}

impl Attitude {
    pub open spec fn wf(self) -> bool {
        self.forward.is_direction() && self.rotation.wf() && self.heading_dir.is_direction()
    }
}

/// One update record of one entity.
#[derive(Debug)]
pub struct UnitUpdate {
    pub id: u64,
    pub coords: Option<Coords>,
    /// The attitude after this update, where it changes the orientation.
    pub attitude: Option<Attitude>,
    pub pilot: Option<String>,
    /// Angle of attack, in hundredths of a degree.
    pub aoa: Option<i64>,
    /// The unit type.
    pub name: Option<String>,
    pub tags: Option<TagSet>,
}

pub open spec fn in_coord_range(a: Option<i64>) -> bool {
    a matches Some(x) ==> -COORD_LIMIT <= x <= COORD_LIMIT
}

impl UnitUpdate {
    pub open spec fn wf(&self) -> bool {
        &&& self.coords matches Some(c) ==> in_coord_range(c.altitude) && in_coord_range(c.u)
            && in_coord_range(c.v)
        &&& self.attitude matches Some(a) ==> a.wf()
    }
}

pub open spec fn or_value(a: Option<i64>, d: i64) -> i64 {
    match a {
        Some(x) => x,
        None => d,
    }
}

pub open spec fn orientation_changed(c: Coords) -> bool {
    c.roll is Some || c.pitch is Some || c.yaw is Some || c.heading is Some
}

pub open spec fn clamp_speed(v: int) -> int {
    if v > VELOCITY_LIMIT {
        VELOCITY_LIMIT as int
    } else if v < -VELOCITY_LIMIT {
        -VELOCITY_LIMIT
    } else {
        v
    }
}

/// One component of the velocity between two samples: the change of position
/// per second, within the velocity bound.
pub open spec fn speed_between(from: i64, to: i64, dt: int) -> int {
    clamp_speed(div_trunc((to - from) * 100, dt))
}

/// The velocity that a log gives a unit moving from `t` to `pos` at `time`:
/// the mean velocity between the two samples where `t` is an earlier sample,
/// else the velocity of `t`.
pub open spec fn velocity_to(t: Transform, pos: Vec3, time: i64) -> Vec3 {
    if t.time > 0 && time > t.time {
        let dt = time - t.time;
        Vec3 {
            x: speed_between(t.position.x, pos.x, dt) as i64,
            y: speed_between(t.position.y, pos.y, dt) as i64,
            z: speed_between(t.position.z, pos.z, dt) as i64,
        }
    } else {
        t.velocity
    }
}

/// `t` after the coordinates `c` at `time`.
pub open spec fn moved(t: Transform, time: i64, c: Coords, attitude: Option<Attitude>) -> Transform {
    let turn = orientation_changed(c) && attitude is Some;
    let a = attitude->0;
    let pos = Vec3 {
        x: or_value(c.u, t.position.x),
        y: or_value(c.altitude, t.position.y),
        z: or_value(c.v, t.position.z),
    };
    Transform {
        roll: or_value(c.roll, t.roll),
        pitch: or_value(c.pitch, t.pitch),
        yaw: or_value(c.yaw, t.yaw),
        heading: or_value(c.heading, t.heading),
        forward: if turn {
            a.forward
        } else {
            t.forward
        },
        rotation: if turn {
            a.rotation
        } else {
            t.rotation
        },
        heading_dir: if turn {
            a.heading_dir
        } else {
            t.heading_dir
        },
        position: pos,
        velocity: velocity_to(t, pos, time),
        alt: or_value(c.altitude, t.alt),
        time,
        ..t
    }
}

/// `t` after the update `u` at `time`.
pub open spec fn unit_after(t: Transform, time: i64, u: &UnitUpdate) -> Transform {
    let m = match u.coords {
        Some(c) => moved(t, time, c, u.attitude),
        None => t,
    };
    Transform { aoa: or_value(u.aoa, m.aoa), ..m }
}

/// The tracking state of one carrier and plane pair of a replay log.
pub struct CarrierPlanePair {
    pub pilot_name: String,
    pub carrier_id: u64,
    pub carrier: Transform,
    pub carrier_info: CarrierInfo,
    pub plane_id: u64,
    pub plane: Transform,
    pub plane_info: AirplaneInfo,
    pub is_recovery_attempt: bool,
    pub is_dirty: bool,
    pub is_done: bool,
    pub datums: Track,
    pub landed: bool,
}

impl CarrierPlanePair {
    pub open spec fn wf(&self) -> bool {
        &&& self.carrier.wf()
        &&& self.plane.wf()
        &&& self.datums.wf()
        &&& self.datums@.carrier == self.carrier_info
        &&& self.datums@.plane == self.plane_info
    }

    /// The pair as it starts: nothing seen yet.
    pub open spec fn is_fresh(
        &self,
        carrier_id: u64,
        ci: CarrierInfo,
        plane_id: u64,
        pilot_name: Seq<char>,
        pi: AirplaneInfo,
    ) -> bool {
        &&& self.pilot_name@ == pilot_name
        &&& self.carrier_id == carrier_id
        &&& self.carrier == Transform::rest()
        &&& self.carrier_info == ci
        &&& self.plane_id == plane_id
        &&& self.plane == Transform::rest()
        &&& self.plane_info == pi
        &&& !self.is_recovery_attempt
        &&& !self.is_dirty
        &&& !self.is_done
        &&& self.datums@ == new_track(pilot_name, ci, pi)
        &&& !self.landed
    }

    /// The identities, rigs and samples of `self` and `o` agree.
    pub open spec fn same_units(&self, o: &CarrierPlanePair) -> bool {
        &&& self.carrier_id == o.carrier_id
        &&& self.plane_id == o.plane_id
        &&& self.carrier_info == o.carrier_info
        &&& self.plane_info == o.plane_info
    }

    /// `n` is `self` after the update `u` at `time`.
    pub open spec fn updated_to(&self, n: &CarrierPlanePair, time: i64, u: &UnitUpdate) -> bool {
        let for_carrier = u.id == self.carrier_id;
        let for_plane = !for_carrier && u.id == self.plane_id;
        &&& self.same_units(n)
        &&& n.carrier == if for_carrier {
            unit_after(self.carrier, time, u)
        } else {
            self.carrier
        }
        &&& n.plane == if for_plane {
            unit_after(self.plane, time, u)
        } else {
            self.plane
        }
        &&& n.pilot_name@ == if (for_carrier || for_plane) && u.pilot is Some {
            u.pilot->0@
        } else {
            self.pilot_name@
        }
        &&& n.is_dirty == (self.is_dirty || (for_plane && u.coords is Some))
        &&& n.is_recovery_attempt == self.is_recovery_attempt
        &&& n.is_done == self.is_done
        &&& n.landed == self.landed
        &&& n.datums@ == self.datums@
    }

    /// `n` is `self` after a frame ends.
    pub open spec fn processed_to(&self, n: &CarrierPlanePair) -> bool {
        let c = self.carrier;
        let p = self.plane;
        &&& self.same_units(n)
        &&& n.carrier == c
        &&& n.plane == p
        &&& n.pilot_name@ == self.pilot_name@
        &&& n.landed == self.landed
        &&& if !self.is_dirty || self.is_done {
            &&& n.is_dirty == self.is_dirty
            &&& n.is_done == self.is_done
            &&& n.is_recovery_attempt == self.is_recovery_attempt
            &&& n.datums@ == self.datums@
        } else if c.time == 0 || p.time == 0 {
            &&& !n.is_dirty
            &&& n.is_done == self.is_done
            &&& n.is_recovery_attempt == self.is_recovery_attempt
            &&& n.datums@ == self.datums@
        } else if self.is_recovery_attempt {
            let t1 = next_state(self.datums@, c, p);
            &&& !n.is_dirty
            &&& n.is_recovery_attempt
            &&& n.is_done == (!continues(self.datums@, c, p) || self.landed)
            &&& n.datums@ == if self.landed {
                landed_state(t1, c, p)
            } else {
                t1
            }
        } else {
            &&& !n.is_dirty
            &&& n.is_done == self.is_done
            &&& n.is_recovery_attempt == recovery_attempt(c, p)
            &&& n.datums@ == self.datums@
        }
    }

    pub fn new(
        carrier_id: u64,
        carrier_info: CarrierInfo,
        plane_id: u64,
        pilot_name: &str,
        plane_info: AirplaneInfo,
    ) -> (r: CarrierPlanePair)
        requires
            carrier_info.wf(),
            plane_info.wf(),
        ensures
            r.wf(),
            r.is_fresh(carrier_id, carrier_info, plane_id, pilot_name@, plane_info),
    {
        CarrierPlanePair {
            pilot_name: pilot_name.to_owned(),
            carrier_id,
            carrier: Transform::default(),
            carrier_info,
            plane_id,
            plane: Transform::default(),
            plane_info,
            is_recovery_attempt: false,
            is_dirty: false,
            is_done: false,
            datums: Track::new(pilot_name, carrier_info, plane_info),
            landed: false,
        }
    }

    /// Takes one update record of the log at `time`; a new plane position
    /// marks the pair for processing at the end of the frame.
    pub fn update(&mut self, time: i64, update: &UnitUpdate)
        requires
            old(self).wf(),
            update.wf(),
        ensures
            final(self).wf(),
            old(self).updated_to(final(self), time, update),
    {
        let is_plane = if update.id == self.carrier_id {
            false
        } else if update.id == self.plane_id {
            true
        } else {
            return;
        };
        let mut t = if is_plane {
            self.plane
        } else {
            self.carrier
        };
        if let Some(c) = update.coords {
            t = move_transform(t, time, c, update.attitude);
            if is_plane {
                self.is_dirty = true;
            }
        }
        if let Some(pilot) = &update.pilot {
            self.pilot_name = pilot.clone();
        }
        if let Some(aoa) = update.aoa {
            t.aoa = aoa;
        }
        if is_plane {
            self.plane = t;
        } else {
            self.carrier = t;
        }
    }

    /// Marks the touchdown of the pair's plane on the pair's carrier.
    pub fn landed(&mut self, carrier_id: u64, plane_id: u64)
        requires
            old(self).wf(),
        ensures
            final(self).wf(),
            final(self).same_units(old(self)),
            final(self).carrier == old(self).carrier,
            final(self).plane == old(self).plane,
            final(self).pilot_name@ == old(self).pilot_name@,
            final(self).is_recovery_attempt == old(self).is_recovery_attempt,
            final(self).is_done == old(self).is_done,
            final(self).datums@ == old(self).datums@,
            if old(self).carrier_id == carrier_id && old(self).plane_id == plane_id
                && !old(self).landed {
                final(self).landed && final(self).is_dirty
            } else {
                final(self).landed == old(self).landed && final(self).is_dirty == old(self).is_dirty
            },
    {
        if self.carrier_id == carrier_id && self.plane_id == plane_id && !self.landed {
            self.landed = true;
            self.is_dirty = true;
        }
    }

    /// Records the grading text reported for the pair.
    pub fn dcs_grading(&mut self, carrier_id: u64, plane_id: u64, dcs_grading: &str)
        requires
            old(self).wf(),
        ensures
            final(self).wf(),
            final(self).same_units(old(self)),
            final(self).carrier == old(self).carrier,
            final(self).plane == old(self).plane,
            final(self).pilot_name@ == old(self).pilot_name@,
            final(self).is_recovery_attempt == old(self).is_recovery_attempt,
            final(self).is_done == old(self).is_done,
            final(self).is_dirty == old(self).is_dirty,
            final(self).landed == old(self).landed,
            final(self).datums@ == if old(self).carrier_id == carrier_id && old(self).plane_id
                == plane_id {
                TrackView { dcs_grading: Some(dcs_grading@), ..old(self).datums@ }
            } else {
                old(self).datums@
            },
    {
        if self.carrier_id == carrier_id && self.plane_id == plane_id {
            self.datums.set_dcs_grading(dcs_grading.to_owned());
        }
    }

    /// At the end of a frame: feeds the tracker once tracking started (ending
    /// it on touchdown), or checks whether a recovery attempt starts.
    pub fn process_frame(&mut self)
        requires
            old(self).wf(),
        ensures
            final(self).wf(),
            old(self).processed_to(final(self)),
    {
        if !self.is_dirty || self.is_done {
            return;
        }
        self.is_dirty = false;
        if self.carrier.time == 0 || self.plane.time == 0 {
            return;
        }
        if self.is_recovery_attempt {
            let mut should_continue = self.datums.next(&self.carrier, &self.plane);
            if self.landed {
                self.datums.landed(&self.carrier, &self.plane);
                should_continue = false;
            }
            if !should_continue {
                self.is_done = true;
            }
        } else if is_recovery_attempt(&self.carrier, &self.plane) {
            self.is_recovery_attempt = true;
        }
    }

    /// Hands out the result of a tracked recovery attempt and starts watching
    /// for the next one.
    pub fn take_result(&mut self) -> (r: Option<TrackResult>)
        requires
            old(self).wf(),
        ensures
            final(self).wf(),
            final(self).same_units(old(self)),
            final(self).carrier == old(self).carrier,
            final(self).plane == old(self).plane,
            final(self).pilot_name@ == old(self).pilot_name@,
            final(self).is_done == old(self).is_done,
            final(self).is_dirty == old(self).is_dirty,
            if old(self).is_recovery_attempt {
                &&& r matches Some(res) && res.grading == final_grading(old(self).datums@)
                    && res.datums@ == old(self).datums@.datums
                &&& final(self).datums@ == new_track(
                    old(self).pilot_name@,
                    old(self).carrier_info,
                    old(self).plane_info,
                )
                &&& !final(self).is_recovery_attempt
                &&& !final(self).landed
            } else {
                &&& r is None
                &&& final(self).datums@ == old(self).datums@
                &&& final(self).is_recovery_attempt == old(self).is_recovery_attempt
                &&& final(self).landed == old(self).landed
            },
    {
        if self.is_recovery_attempt {
            let mut track = Track::new(self.pilot_name.as_str(), self.carrier_info, self.plane_info);
            core::mem::swap(&mut self.datums, &mut track);
            let result = track.finish();
            self.is_recovery_attempt = false;
            self.landed = false;
            Some(result)
        } else {
            None
        }
    }
}

/// The units of a replay log and the pairs formed of them.
pub struct Replay {
    pub carriers: Vec<(u64, CarrierInfo)>,
    pub planes: Vec<(u64, String, AirplaneInfo)>,
    pub pairs: Vec<CarrierPlanePair>,
    /// Time of the current frame, in hundredths of a second.
    pub time: i64,
}

/// The pilot name of a new plane: as the update gives it, else `KI`.
pub open spec fn pilot_of(u: &UnitUpdate) -> Seq<char> {
    match u.pilot {
        Some(p) => p@,
        None => "KI"@,
    }
}

impl Replay {
    pub open spec fn wf(&self) -> bool {
        &&& forall|i: int| 0 <= i < self.pairs@.len() ==> (#[trigger] self.pairs@[i]).wf()
        &&& forall|i: int| 0 <= i < self.carriers@.len() ==> (#[trigger] self.carriers@[i]).1.wf()
        &&& forall|i: int| 0 <= i < self.planes@.len() ==> (#[trigger] self.planes@[i]).2.wf()
    }

    pub open spec fn knows(&self, id: u64) -> bool {
        (exists|i: int| 0 <= i < self.carriers@.len() && (#[trigger] self.carriers@[i]).0 == id)
            || (exists|i: int| 0 <= i < self.planes@.len() && (#[trigger] self.planes@[i]).0 == id)
    }

    /// The carrier rig that update `u` introduces: a unit not seen before,
    /// tagged as a carrier, of a supported type.
    pub open spec fn new_carrier(&self, u: &UnitUpdate) -> Option<CarrierInfo> {
        if !self.knows(u.id) && u.name is Some && u.tags is Some && u.tags->0.aircraft_carrier {
            carrier_of_type(u.name->0@)
        } else {
            None
        }
    }

    /// The airplane rig that update `u` introduces: a unit not seen before,
    /// tagged as fixed-wing and not as a carrier, of a supported type.
    pub open spec fn new_plane(&self, u: &UnitUpdate) -> Option<AirplaneInfo> {
        if !self.knows(u.id) && u.name is Some && u.tags is Some && !u.tags->0.aircraft_carrier
            && u.tags->0.fixed_wing {
            airplane_of_type(u.name->0@)
        } else {
            None
        }
    }

    /// `pairs` are the pairs of `self` followed by the fresh pairs that update
    /// `u` forms, before `u` is applied to any of them.
    pub open spec fn registered(&self, u: &UnitUpdate, pairs: Seq<CarrierPlanePair>) -> bool {
        let n = self.pairs@.len();
        &&& forall|i: int| 0 <= i < n ==> pairs[i] == self.pairs@[i]
        &&& match self.new_carrier(u) {
            Some(ci) => pairs.len() == n + self.planes@.len() && forall|j: int|
                0 <= j < self.planes@.len() ==> (#[trigger] pairs[n + j]).is_fresh(
                    u.id,
                    ci,
                    self.planes@[j].0,
                    self.planes@[j].1@,
                    self.planes@[j].2,
                ),
            None => match self.new_plane(u) {
                Some(pi) => pairs.len() == n + self.carriers@.len() && forall|j: int|
                    0 <= j < self.carriers@.len() ==> (#[trigger] pairs[n + j]).is_fresh(
                        self.carriers@[j].0,
                        self.carriers@[j].1,
                        u.id,
                        pilot_of(u),
                        pi,
                    ),
                None => pairs.len() == n,
            },
        }
    }

    pub fn new() -> (r: Replay)
        ensures
            r.wf(),
            r.carriers@.len() == 0,
            r.planes@.len() == 0,
            r.pairs@.len() == 0,
            r.time == 0,
    {
        Replay { carriers: Vec::new(), planes: Vec::new(), pairs: Vec::new(), time: 0 }
    }

    /// A frame marker at `time`: the frame before it ends for every pair.
    pub fn on_frame(&mut self, time: i64)
        requires
            old(self).wf(),
        ensures
            final(self).wf(),
            final(self).time == time,
            final(self).carriers@ == old(self).carriers@,
            final(self).planes@ == old(self).planes@,
            final(self).pairs@.len() == old(self).pairs@.len(),
            forall|i: int|
                0 <= i < old(self).pairs@.len() ==> old(self).pairs@[i].processed_to(
                    &(#[trigger] final(self).pairs@[i]),
                ),
    {
        self.process_all();
        self.time = time;
    }

    fn process_all(&mut self)
        requires
            old(self).wf(),
        ensures
            final(self).wf(),
            final(self).time == old(self).time,
            final(self).carriers@ == old(self).carriers@,
            final(self).planes@ == old(self).planes@,
            final(self).pairs@.len() == old(self).pairs@.len(),
            forall|i: int|
                0 <= i < old(self).pairs@.len() ==> old(self).pairs@[i].processed_to(
                    &(#[trigger] final(self).pairs@[i]),
                ),
    {
        let ghost before = self.pairs@;
        let mut i: usize = 0;
        while i < self.pairs.len()
            invariant
                self.wf(),
                self.time == old(self).time,
                self.carriers@ == old(self).carriers@,
                self.planes@ == old(self).planes@,
                before == old(self).pairs@,
                self.pairs@.len() == before.len(),
                i <= before.len(),
                forall|k: int| 0 <= k < i ==> before[k].processed_to(&(#[trigger] self.pairs@[k])),
                forall|k: int| i <= k < before.len() ==> #[trigger] self.pairs@[k] == before[k],
            decreases before.len() - i,
        {
            let p = &mut self.pairs[i];
            p.process_frame();
            i = i + 1;
        }
    }

    /// An update record: registers a unit seen for the first time (forming
    /// its pairs with the units of the other kind), then hands the update to
    /// every pair.
    pub fn on_update(&mut self, update: &UnitUpdate)
        requires
            old(self).wf(),
            update.wf(),
        ensures
            final(self).wf(),
            final(self).time == old(self).time,
            final(self).carriers@ == match old(self).new_carrier(update) {
                Some(ci) => old(self).carriers@.push((update.id, ci)),
                None => old(self).carriers@,
            },
            final(self).planes@.len() == old(self).planes@.len() + if old(self).new_plane(
                update,
            ) is Some && old(self).new_carrier(update) is None {
                1int
            } else {
                0int
            },
            forall|j: int|
                0 <= j < old(self).planes@.len() ==> #[trigger] final(self).planes@[j]
                    == old(self).planes@[j],
            old(self).new_carrier(update) is None ==> (old(self).new_plane(update) matches Some(
                pi,
            ) ==> final(self).planes@.last().0 == update.id && final(self).planes@.last().1@
                == pilot_of(update) && final(self).planes@.last().2 == pi),
            exists|mid: Seq<CarrierPlanePair>|
                old(self).registered(update, mid) && mid.len() == final(self).pairs@.len() && (
                forall|i: int|
                    0 <= i < mid.len() ==> (#[trigger] mid[i]).updated_to(
                        &final(self).pairs@[i],
                        old(self).time,
                        update,
                    )),
    {
        self.register(update);
        let ghost mid = self.pairs@;
        let ghost carriers = self.carriers@;
        let ghost planes = self.planes@;
        let mut i: usize = 0;
        while i < self.pairs.len()
            invariant
                self.wf(),
                update.wf(),
                self.time == old(self).time,
                self.carriers@ == carriers,
                self.planes@ == planes,
                self.pairs@.len() == mid.len(),
                i <= mid.len(),
                forall|k: int| 0 <= k < i ==> mid[k].updated_to(&(#[trigger] self.pairs@[k]), self.time, update),
                forall|k: int| i <= k < mid.len() ==> #[trigger] self.pairs@[k] == mid[k],
            decreases mid.len() - i,
        {
            let time = self.time;
            let p = &mut self.pairs[i];
            p.update(time, update);
            i = i + 1;
        }
    }

    fn knows_exec(&self, id: u64) -> (r: bool)
        ensures
            r == self.knows(id),
    {
        let mut i: usize = 0;
        while i < self.carriers.len()
            invariant
                i <= self.carriers@.len(),
                forall|k: int| 0 <= k < i ==> (#[trigger] self.carriers@[k]).0 != id,
            decreases self.carriers@.len() - i,
        {
            if self.carriers[i].0 == id {
                return true;
            }
            i = i + 1;
        }
        let mut j: usize = 0;
        while j < self.planes.len()
            invariant
                j <= self.planes@.len(),
                forall|k: int| 0 <= k < self.carriers@.len() ==> (#[trigger] self.carriers@[k]).0 != id,
                forall|k: int| 0 <= k < j ==> (#[trigger] self.planes@[k]).0 != id,
            decreases self.planes@.len() - j,
        {
            if self.planes[j].0 == id {
                return true;
            }
            j = j + 1;
        }
        false
    }

    fn register(&mut self, update: &UnitUpdate)
        requires
            old(self).wf(),
        ensures
            final(self).wf(),
            final(self).time == old(self).time,
            old(self).registered(update, final(self).pairs@),
            final(self).carriers@ == match old(self).new_carrier(update) {
                Some(ci) => old(self).carriers@.push((update.id, ci)),
                None => old(self).carriers@,
            },
            final(self).planes@.len() == old(self).planes@.len() + if old(self).new_plane(
                update,
            ) is Some && old(self).new_carrier(update) is None {
                1int
            } else {
                0int
            },
            forall|j: int|
                0 <= j < old(self).planes@.len() ==> #[trigger] final(self).planes@[j]
                    == old(self).planes@[j],
            old(self).new_carrier(update) is None ==> (old(self).new_plane(update) matches Some(
                pi,
            ) ==> final(self).planes@.last().0 == update.id && final(self).planes@.last().1@
                == pilot_of(update) && final(self).planes@.last().2 == pi),
    {
        if self.knows_exec(update.id) {
            return;
        }
        let (name, tags) = match (&update.name, &update.tags) {
            (Some(n), Some(t)) => (n, *t),
            _ => {
                return;
            },
        };
        let ghost n = self.pairs@.len();
        if tags.aircraft_carrier {
            if let Some(ci) = CarrierInfo::by_type(name.as_str()) {
                let mut j: usize = 0;
                while j < self.planes.len()
                    invariant
                        self.wf(),
                        ci.wf(),
                        self.time == old(self).time,
                        self.carriers@ == old(self).carriers@,
                        self.planes@ == old(self).planes@,
                        j <= self.planes@.len(),
                        self.pairs@.len() == n + j,
                        n == old(self).pairs@.len(),
                        forall|i: int| 0 <= i < n ==> self.pairs@[i] == old(self).pairs@[i],
                        forall|k: int|
                            0 <= k < j ==> (#[trigger] self.pairs@[n + k]).is_fresh(
                                update.id,
                                ci,
                                self.planes@[k].0,
                                self.planes@[k].1@,
                                self.planes@[k].2,
                            ),
                    decreases self.planes@.len() - j,
                {
                    let plane_id = self.planes[j].0;
                    let pi = self.planes[j].2;
                    let pair = CarrierPlanePair::new(update.id, ci, plane_id, self.planes[j].1.as_str(), pi);
                    self.pairs.push(pair);
                    proof {
                        assert(self.pairs@[n + j as int] == pair);
                    }
                    j = j + 1;
                }
                self.carriers.push((update.id, ci));
            }
        } else if tags.fixed_wing {
            if let Some(pi) = AirplaneInfo::by_type(name.as_str()) {
                let pilot: &str = match &update.pilot {
                    Some(p) => p.as_str(),
                    None => "KI",
                };
                let mut j: usize = 0;
                while j < self.carriers.len()
                    invariant
                        self.wf(),
                        pi.wf(),
                        pilot@ == pilot_of(update),
                        self.time == old(self).time,
                        self.carriers@ == old(self).carriers@,
                        self.planes@ == old(self).planes@,
                        j <= self.carriers@.len(),
                        self.pairs@.len() == n + j,
                        n == old(self).pairs@.len(),
                        forall|i: int| 0 <= i < n ==> self.pairs@[i] == old(self).pairs@[i],
                        forall|k: int|
                            0 <= k < j ==> (#[trigger] self.pairs@[n + k]).is_fresh(
                                self.carriers@[k].0,
                                self.carriers@[k].1,
                                update.id,
                                pilot_of(update),
                                pi,
                            ),
                    decreases self.carriers@.len() - j,
                {
                    let carrier_id = self.carriers[j].0;
                    let ci = self.carriers[j].1;
                    let pair = CarrierPlanePair::new(carrier_id, ci, update.id, pilot, pi);
                    self.pairs.push(pair);
                    proof {
                        assert(self.pairs@[n + j as int] == pair);
                    }
                    j = j + 1;
                }
                self.planes.push((update.id, pilot.to_owned(), pi));
            }
        }
    }

    /// A landing event of `plane_id` on `carrier_id`.
    pub fn on_landed(&mut self, carrier_id: u64, plane_id: u64)
        requires
            old(self).wf(),
        ensures
            final(self).wf(),
            final(self).time == old(self).time,
            final(self).carriers@ == old(self).carriers@,
            final(self).planes@ == old(self).planes@,
            final(self).pairs@.len() == old(self).pairs@.len(),
            forall|i: int|
                0 <= i < old(self).pairs@.len() ==> {
                    let a = old(self).pairs@[i];
                    let b = #[trigger] final(self).pairs@[i];
                    &&& b.same_units(&a)
                    &&& b.carrier == a.carrier && b.plane == a.plane
                    &&& b.datums@ == a.datums@
                    &&& b.is_recovery_attempt == a.is_recovery_attempt
                    &&& b.is_done == a.is_done
                    &&& b.landed == (a.landed || (a.carrier_id == carrier_id && a.plane_id
                        == plane_id))
                    &&& b.is_dirty == (a.is_dirty || (a.carrier_id == carrier_id && a.plane_id
                        == plane_id && !a.landed))
                },
    {
        let ghost before = self.pairs@;
        let mut i: usize = 0;
        while i < self.pairs.len()
            invariant
                self.wf(),
                self.time == old(self).time,
                self.carriers@ == old(self).carriers@,
                self.planes@ == old(self).planes@,
                before == old(self).pairs@,
                self.pairs@.len() == before.len(),
                i <= before.len(),
                forall|k: int|
                    0 <= k < i ==> {
                        let a = before[k];
                        let b = #[trigger] self.pairs@[k];
                        &&& b.same_units(&a)
                        &&& b.carrier == a.carrier && b.plane == a.plane
                        &&& b.datums@ == a.datums@
                        &&& b.is_recovery_attempt == a.is_recovery_attempt
                        &&& b.is_done == a.is_done
                        &&& b.landed == (a.landed || (a.carrier_id == carrier_id && a.plane_id
                            == plane_id))
                        &&& b.is_dirty == (a.is_dirty || (a.carrier_id == carrier_id
                            && a.plane_id == plane_id && !a.landed))
                    },
                forall|k: int| i <= k < before.len() ==> #[trigger] self.pairs@[k] == before[k],
            decreases before.len() - i,
        {
            let p = &mut self.pairs[i];
            p.landed(carrier_id, plane_id);
            i = i + 1;
        }
    }

    /// A grading message for `plane_id` on `carrier_id`.
    pub fn on_grading(&mut self, carrier_id: u64, plane_id: u64, text: &str)
        requires
            old(self).wf(),
        ensures
            final(self).wf(),
            final(self).time == old(self).time,
            final(self).carriers@ == old(self).carriers@,
            final(self).planes@ == old(self).planes@,
            final(self).pairs@.len() == old(self).pairs@.len(),
            forall|i: int|
                0 <= i < old(self).pairs@.len() ==> {
                    let a = old(self).pairs@[i];
                    let b = #[trigger] final(self).pairs@[i];
                    &&& b.same_units(&a)
                    &&& b.landed == a.landed && b.is_dirty == a.is_dirty
                    &&& b.is_recovery_attempt == a.is_recovery_attempt
                    &&& b.datums@ == if a.carrier_id == carrier_id && a.plane_id == plane_id {
                        TrackView { dcs_grading: Some(text@), ..a.datums@ }
                    } else {
                        a.datums@
                    }
                },
    {
        let ghost before = self.pairs@;
        let mut i: usize = 0;
        while i < self.pairs.len()
            invariant
                self.wf(),
                self.time == old(self).time,
                self.carriers@ == old(self).carriers@,
                self.planes@ == old(self).planes@,
                before == old(self).pairs@,
                self.pairs@.len() == before.len(),
                i <= before.len(),
                forall|k: int|
                    0 <= k < i ==> {
                        let a = before[k];
                        let b = #[trigger] self.pairs@[k];
                        &&& b.same_units(&a)
                        &&& b.landed == a.landed && b.is_dirty == a.is_dirty
                        &&& b.is_recovery_attempt == a.is_recovery_attempt
                        &&& b.datums@ == if a.carrier_id == carrier_id && a.plane_id == plane_id {
                            TrackView { dcs_grading: Some(text@), ..a.datums@ }
                        } else {
                            a.datums@
                        }
                    },
                forall|k: int| i <= k < before.len() ==> #[trigger] self.pairs@[k] == before[k],
            decreases before.len() - i,
        {
            let p = &mut self.pairs[i];
            p.dcs_grading(carrier_id, plane_id, text);
            i = i + 1;
        }
    }

    /// The end of the log: the last frame ends for every pair.
    pub fn finish(self) -> (r: Vec<CarrierPlanePair>)
        requires
            self.wf(),
        ensures
            r@.len() == self.pairs@.len(),
            forall|i: int| 0 <= i < r@.len() ==> (#[trigger] r@[i]).wf(),
            forall|i: int| 0 <= i < r@.len() ==> self.pairs@[i].processed_to(&(#[trigger] r@[i])),
    {
        let mut s = self;
        s.process_all();
        s.pairs
    }
}

/// The gradings of the recovery attempts among `pairs`, in their order.
pub open spec fn recovery_gradings(pairs: Seq<CarrierPlanePair>) -> Seq<Grading>
    decreases pairs.len(),
{
    if pairs.len() == 0 {
        Seq::empty()
    } else {
        let g = recovery_gradings(pairs.drop_last());
        if pairs.last().is_recovery_attempt {
            g.push(final_grading(pairs.last().datums@))
        } else {
            g
        }
    }
}

/// The results of the pairs that tracked a recovery attempt, in their order.
pub fn extract_recoveries(pairs: Vec<CarrierPlanePair>) -> (r: Vec<TrackResult>)
    requires
        forall|i: int| 0 <= i < pairs@.len() ==> (#[trigger] pairs@[i]).wf(),
    ensures
        r@.len() == recovery_gradings(pairs@).len(),
        forall|k: int| 0 <= k < r@.len() ==> (#[trigger] r@[k]).grading == recovery_gradings(pairs@)[k],
{
    let mut pairs = pairs;
    let ghost all = pairs@;
    let mut out: Vec<TrackResult> = Vec::new();
    let mut i: usize = 0;
    while i < pairs.len()
        invariant
            pairs@.len() == all.len(),
            i <= all.len(),
            forall|k: int| i <= k < all.len() ==> #[trigger] pairs@[k] == all[k],
            forall|k: int| 0 <= k < all.len() ==> (#[trigger] all[k]).wf(),
            out@.len() == recovery_gradings(all.subrange(0, i as int)).len(),
            forall|k: int|
                0 <= k < out@.len() ==> (#[trigger] out@[k]).grading == recovery_gradings(
                    all.subrange(0, i as int),
                )[k],
        decreases all.len() - i,
    {
        let ghost sub = all.subrange(0, i + 1);
        assert(sub.drop_last() =~= all.subrange(0, i as int));
        assert(sub.last() == all[i as int]);
        let p = &mut pairs[i];
        let res = p.take_result();
        if let Some(res) = res {
            out.push(res);
        }
        i = i + 1;
    }
    assert(all.subrange(0, i as int) =~= all);
    out
}

fn move_transform(t: Transform, time: i64, c: Coords, attitude: Option<Attitude>) -> (r: Transform)
    requires
        t.wf(),
        in_coord_range(c.altitude) && in_coord_range(c.u) && in_coord_range(c.v),
        attitude matches Some(a) ==> a.wf(),
    ensures
        r == moved(t, time, c, attitude),
        r.wf(),
{
    let mut r = t;
    let mut turned = false;
    if let Some(roll) = c.roll {
        r.roll = roll;
        turned = true;
    }
    if let Some(pitch) = c.pitch {
        r.pitch = pitch;
        turned = true;
    }
    if let Some(yaw) = c.yaw {
        r.yaw = yaw;
        turned = true;
    }
    if let Some(heading) = c.heading {
        r.heading = heading;
        turned = true;
    }
    if turned {
        if let Some(a) = attitude {
            r.forward = a.forward;
            r.rotation = a.rotation;
            r.heading_dir = a.heading_dir;
        }
    }
    if let Some(altitude) = c.altitude {
        r.position.y = altitude;
        r.alt = altitude;
    }
    if let Some(u) = c.u {
        r.position.x = u;
    }
    if let Some(v) = c.v {
        r.position.z = v;
    }
    if t.time > 0 && time > t.time {
        let dt = (time as i128) - (t.time as i128);
        r.velocity = Vec3 {
            x: speed_exec(t.position.x, r.position.x, dt),
            y: speed_exec(t.position.y, r.position.y, dt),
            z: speed_exec(t.position.z, r.position.z, dt),
        };
    }
    r.time = time;
    r
}

fn speed_exec(from: i64, to: i64, dt: i128) -> (r: i64)
    requires
        -COORD_LIMIT <= from <= COORD_LIMIT,
        -COORD_LIMIT <= to <= COORD_LIMIT,
        dt > 0,
    ensures
        r == speed_between(from, to, dt as int),
{
    let v = div_trunc_exec(((to as i128) - (from as i128)) * 100, dt);
    if v > VELOCITY_LIMIT as i128 {
        VELOCITY_LIMIT
    } else if v < -(VELOCITY_LIMIT as i128) {
        -VELOCITY_LIMIT
    } else {
        v as i64
    }
}

} // verus!
