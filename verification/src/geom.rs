//! The data the pipeline works on: fixed-point vectors, the mover, the static
//! obstacles, the held movement keys, and the mover's orientation.

use vstd::prelude::*;
use crate::fixed::{GROUND_HEIGHT, MAX_STEP, POS_LIMIT, PUSH_DISTANCE, SCALE};

verus! {

/// A 3D vector in fixed-point micro-units.
#[derive(Clone, Copy, PartialEq, Eq, Structural, Debug)]
pub struct Vec3Fx {
    pub x: i64,
    pub y: i64,
    pub z: i64,
}

/// The single player-controlled entity: its authoritative position and its
/// constant collision extents.
#[derive(Clone, Copy, PartialEq, Eq, Structural, Debug)]
pub struct Mover {
    pub position: Vec3Fx,
    pub extents: Vec3Fx,
}

/// A static blocking body: a center and a size, both immutable.
#[derive(Clone, Copy, PartialEq, Eq, Structural, Debug)]
pub struct Obstacle {
    pub position: Vec3Fx,
    pub extents: Vec3Fx,
}

/// Which of the four movement keys are held this frame; each is independent.
#[derive(Clone, Copy, PartialEq, Eq, Structural, Debug)]
pub struct KeyState {
    pub forward: bool,
    pub back: bool,
    pub left: bool,
    pub right: bool,
}

/// The mover's orientation, given as its forward and right unit vectors in
/// fixed point (each component at most one world unit in magnitude).
#[derive(Clone, Copy, PartialEq, Eq, Structural, Debug)]
pub struct Orientation {
    pub forward: Vec3Fx,
    pub right: Vec3Fx,
}

impl Vec3Fx {
    /// Squared magnitude, over unbounded integers.
    pub open spec fn mag_sq(self) -> int {
        (self.x as int) * (self.x as int) + (self.y as int) * (self.y as int) + (self.z as int)
            * (self.z as int)
    }

    /// Dot product, over unbounded integers.
    pub open spec fn dot(self, o: Vec3Fx) -> int {
        (self.x as int) * (o.x as int) + (self.y as int) * (o.y as int) + (self.z as int) * (
        o.z as int)
    }
}

/// Every coordinate within the range the pipeline's arithmetic accepts.
pub open spec fn pos_wf(v: Vec3Fx) -> bool {
    &&& -POS_LIMIT <= v.x <= POS_LIMIT
    &&& -POS_LIMIT <= v.y <= POS_LIMIT
    &&& -POS_LIMIT <= v.z <= POS_LIMIT
}

/// A position at most one pipeline step away from a well-formed one: what a
/// frame's proposal or correction may reach.
pub open spec fn proposed_wf(v: Vec3Fx) -> bool {
    &&& -(POS_LIMIT + MAX_STEP + PUSH_DISTANCE) <= v.x <= POS_LIMIT + MAX_STEP + PUSH_DISTANCE
    &&& -(POS_LIMIT + MAX_STEP + PUSH_DISTANCE) <= v.y <= POS_LIMIT + MAX_STEP + PUSH_DISTANCE
    &&& -(POS_LIMIT + MAX_STEP + PUSH_DISTANCE) <= v.z <= POS_LIMIT + MAX_STEP + PUSH_DISTANCE
}

/// Extents are sizes: non-negative and bounded.
pub open spec fn extents_wf(v: Vec3Fx) -> bool {
    &&& 0 <= v.x <= POS_LIMIT
    &&& 0 <= v.y <= POS_LIMIT
    &&& 0 <= v.z <= POS_LIMIT
}

/// A well-formed obstacle: bounded center, valid extents.
pub open spec fn obstacle_wf(o: Obstacle) -> bool {
    pos_wf(o.position) && extents_wf(o.extents)
}

/// A well-formed mover: bounded position, valid extents.
pub open spec fn mover_wf(m: Mover) -> bool {
    pos_wf(m.position) && extents_wf(m.extents)
}

/// The mover stands on the ground plane.
pub open spec fn grounded(m: Mover) -> bool {
    m.position.y == GROUND_HEIGHT
}

/// An orientation whose basis vectors are at most one world unit per
/// component, as unit vectors are.
pub open spec fn orientation_wf(o: Orientation) -> bool {
    &&& -SCALE <= o.forward.x <= SCALE
    &&& -SCALE <= o.forward.y <= SCALE
    &&& -SCALE <= o.forward.z <= SCALE
    &&& -SCALE <= o.right.x <= SCALE
    &&& -SCALE <= o.right.y <= SCALE
    &&& -SCALE <= o.right.z <= SCALE
}

/// An exactly orthonormal orientation at the model's resolution: both basis
/// vectors have squared magnitude `SCALE * SCALE` and are perpendicular.
pub open spec fn orientation_orthonormal(o: Orientation) -> bool {
    &&& o.forward.mag_sq() == (SCALE as int) * (SCALE as int)
    &&& o.right.mag_sq() == (SCALE as int) * (SCALE as int)
    &&& o.forward.dot(o.right) == 0
}

} // verus!
