//! One telemetry sample of one entity, normalized to fixed-point units.
//!
//! Values arrive already snapped to their precision: positions and altitude to
//! centimetres (held in millimetres), angles to tenths of a degree, the angle
//! of attack to hundredths of a degree, time to hundredths of a second and
//! latitude/longitude to 1e-7 degrees. The frame has +x east, +y up, +z north.
use vstd::prelude::*;
use crate::geometry::{Rotation, Vec3, COORD_LIMIT, UNIT, VELOCITY_LIMIT};

verus! {

#[derive(Clone, Copy, Debug, PartialEq, Eq, Structural)]
pub struct Transform {
    /// Unit heading vector from yaw and pitch, scaled by `UNIT`.
    pub forward: Vec3,
    /// Position in millimetres; `y` is the altitude.
    pub position: Vec3,
    /// Velocity in millimetres per second.
    pub velocity: Vec3,
    /// Orientation from roll, pitch and heading.
    pub rotation: Rotation,
    /// Horizontal unit vector of the heading, `(sin, 0, cos)` scaled by `UNIT`.
    pub heading_dir: Vec3,
    /// Heading in tenths of a degree.
    pub heading: i64,
    /// Latitude in 1e-7 degrees.
    pub lat: i64,
    /// Longitude in 1e-7 degrees.
    pub lon: i64,
    /// Altitude in millimetres.
    pub alt: i64,
    /// Yaw in tenths of a degree.
    pub yaw: i64,
    /// Pitch in tenths of a degree.
    pub pitch: i64,
    /// Roll in tenths of a degree.
    pub roll: i64,
    /// Angle of attack in hundredths of a degree.
    pub aoa: i64,
    /// Time since the scenario started, in hundredths of a second.
    pub time: i64,
}

impl Transform {
    /// The magnitudes that the geometry of this library is proved for.
    pub open spec fn wf(self) -> bool {
        &&& self.forward.is_direction()
        &&& self.position.is_coord()
        &&& self.velocity.bounded(VELOCITY_LIMIT as int)
        &&& self.rotation.wf()
        &&& self.heading_dir.is_direction()
        &&& -COORD_LIMIT <= self.alt <= COORD_LIMIT
        &&& -COORD_LIMIT <= self.lat <= COORD_LIMIT
        &&& -COORD_LIMIT <= self.lon <= COORD_LIMIT
    }

    /// A sample at the origin, level and heading north, at time zero.
    pub open spec fn rest() -> Transform {
        Transform {
            forward: Vec3 { x: 0, y: 0, z: UNIT },
            position: Vec3 { x: 0, y: 0, z: 0 },
            velocity: Vec3 { x: 0, y: 0, z: 0 },
            rotation: Rotation {
                row_x: Vec3 { x: UNIT, y: 0, z: 0 },
                row_y: Vec3 { x: 0, y: UNIT, z: 0 },
                row_z: Vec3 { x: 0, y: 0, z: UNIT },
            },
            heading_dir: Vec3 { x: 0, y: 0, z: UNIT },
            heading: 0,
            lat: 0,
            lon: 0,
            alt: 0,
            yaw: 0,
            pitch: 0,
            roll: 0,
            aoa: 0,
            time: 0,
        }
    }
}

impl Default for Transform {
    fn default() -> (r: Transform)
        ensures
            r == Transform::rest(),
            r.wf(),
    {
        Transform {
            forward: Vec3 { x: 0, y: 0, z: UNIT },
            position: Vec3 { x: 0, y: 0, z: 0 },
            velocity: Vec3 { x: 0, y: 0, z: 0 },
            rotation: Rotation::identity(),
            heading_dir: Vec3 { x: 0, y: 0, z: UNIT },
            heading: 0,
            lat: 0,
            lon: 0,
            alt: 0,
            yaw: 0,
            pitch: 0,
            roll: 0,
            aoa: 0,
            time: 0,
        }
    }
}

} // verus!
