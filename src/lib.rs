//! Carrier-landing analysis: fixed-point geometry, rig tables, the approach
//! tracker with wire estimation and grading, gating of recovery attempts and
//! the merge rules of the replay log.

pub mod gating;
pub mod geometry;
pub mod recording;
pub mod replay;
pub mod rig;
pub mod session;
pub mod tags;
pub mod track;
pub mod transform;
