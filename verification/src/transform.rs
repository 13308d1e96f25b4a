//! Plain 2D vectors and the per-entity transform.
//!
//! A `Transform` carries a fixed-point position (with `z` reserved for draw
//! order), a rotation as a normalized angle around the z axis, and a scale
//! read only by presentation.

use vstd::prelude::*;
use crate::fixed::{s_abs, POS_CAP};
use crate::trig::is_angle;

verus! {

/// A pair of fixed-point scalars.
#[derive(Clone, Copy, PartialEq, Eq, Structural, Debug)]
pub struct Vec2 {
    pub x: i64,
    pub y: i64,
}

#[derive(Clone, Copy, PartialEq, Eq, Structural, Debug)]
pub struct Transform {
    /// Position of the entity's center.
    pub pos: Vec2,
    /// Draw-order layer; never touched by the simulation.
    pub z: i64,
    /// Heading around the z axis, a normalized angle.
    pub rotation: i64,
    /// Sprite scale, read by presentation only.
    pub scale: Vec2,
}

impl Transform {
    /// Coordinates stay inside the playfield range and the heading stays
    /// normalized.
    pub open spec fn wf(self) -> bool {
        &&& s_abs(self.pos.x as int) <= POS_CAP
        &&& s_abs(self.pos.y as int) <= POS_CAP
        &&& is_angle(self.rotation as int)
    }
}

} // verus!
