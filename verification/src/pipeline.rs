//! One frame of the pipeline, in its fixed order: resolve intent, test the
//! proposal against the obstacles, commit. The proposed position and the
//! collision verdict are explicit values handed from stage to stage, and both
//! are returned so callers can observe what the frame decided.

use vstd::prelude::*;
use crate::collision::{any_overlap, collides};
use crate::commit::{
    commit_movement, corrected_x, corrected_y, corrected_z, diff_mag_sq, lemma_push_delta_zero,
};
use crate::fixed::{abs_val, DT_LIMIT, GROUND_HEIGHT};
use crate::geom::{
    grounded, mover_wf, obstacle_wf, orientation_wf, proposed_wf, KeyState, Mover, Obstacle,
    Orientation, Vec3Fx,
};
use crate::intent::{lemma_idle_keys_identity, propose_position, proposed_x, proposed_z};

verus! {

/// An idle frame changes nothing and reports only what already holds: with no
/// key held and a grounded mover, the frame's proposal is the current
/// position itself, so the frame's collision verdict is exactly whether the
/// mover already overlaps an obstacle at rest.
pub proof fn lemma_idle_frame_flag_is_at_rest_overlap(
    pos: Vec3Fx,
    o: Orientation,
    k: KeyState,
    dt: int,
    ext: Vec3Fx,
    obstacles: Seq<Obstacle>,
    proposal: Vec3Fx,
)
    requires
        !k.forward,
        !k.back,
        !k.left,
        !k.right,
        pos.y == GROUND_HEIGHT,
        proposal.x as int == proposed_x(pos, o, k, dt),
        proposal.y == GROUND_HEIGHT,
        proposal.z as int == proposed_z(pos, o, k, dt),
    ensures
        proposal == pos,
        any_overlap(proposal, ext, obstacles) == any_overlap(pos, ext, obstacles),
{
    lemma_idle_keys_identity(pos, o, k, dt);
}

/// Runs one frame: the returned pair is the frame's proposed position and its
/// collision verdict, and the mover's position is updated by the committer —
/// to the proposal on a clear path, by the corrective nudge on a collision.
/// A mover standing on the ground stays on the ground.
pub fn step_frame(
    mover: &mut Mover,
    orient: Orientation,
    keys: KeyState,
    dt: i64,
    obstacles: &Vec<Obstacle>,
) -> (r: (Vec3Fx, bool))
    requires
        mover_wf(*old(mover)),
        abs_val(old(mover).position.y as int - GROUND_HEIGHT as int) <= 1_000_000_000,
        orientation_wf(orient),
        0 <= dt <= DT_LIMIT,
        forall|i: int| 0 <= i < obstacles@.len() ==> obstacle_wf(obstacles@[i]),
    ensures
        r.0.x as int == proposed_x(old(mover).position, orient, keys, dt as int),
        r.0.y == GROUND_HEIGHT,
        r.0.z as int == proposed_z(old(mover).position, orient, keys, dt as int),
        r.1 == any_overlap(r.0, old(mover).extents, obstacles@),
        final(mover).extents == old(mover).extents,
        !r.1 ==> final(mover).position == r.0,
        r.1 ==> final(mover).position.x as int == corrected_x(old(mover).position, r.0),
        r.1 ==> final(mover).position.y as int == corrected_y(old(mover).position, r.0),
        r.1 ==> final(mover).position.z as int == corrected_z(old(mover).position, r.0),
        grounded(*old(mover)) ==> grounded(*final(mover)),
        proposed_wf(final(mover).position),
{
    let proposed = propose_position(mover.position, orient, keys, dt);
    let hit = collides(proposed, mover.extents, obstacles);
    proof {
        if hit && grounded(*mover) {
            let n = diff_mag_sq(mover.position, proposed);
            let d1 = mover.position.x as int - proposed.x as int;
            let d3 = mover.position.z as int - proposed.z as int;
            assert(d1 * d1 >= 0 && d3 * d3 >= 0) by (nonlinear_arith);
            lemma_push_delta_zero(n);
        }
    }
    commit_movement(mover, proposed, hit);
    (proposed, hit)
}

} // verus!
