//! The collision tester: an axis-aligned overlap test with a shrunken
//! envelope, OR-ed over every static obstacle.

use vstd::prelude::*;
use crate::fixed::{abs_val, SHRINK_DEN, SHRINK_NUM};
use crate::geom::{extents_wf, obstacle_wf, proposed_wf, Obstacle, Vec3Fx};

verus! {

/// Overlap on one axis: the gap between the centers is at most
/// `(ext + obstacle ext) * 0.5 * (SHRINK_NUM / SHRINK_DEN)`, written without
/// division so the comparison is exact.
pub open spec fn axis_overlap(p: int, ext: int, op: int, oext: int) -> bool {
    2 * SHRINK_DEN * abs_val(p - op) <= SHRINK_NUM * (ext + oext)
}

/// The mover placed at `p` with extents `ext` overlaps the obstacle: the
/// shrunken envelopes meet on all three axes at once.
pub open spec fn overlaps(p: Vec3Fx, ext: Vec3Fx, o: Obstacle) -> bool {
    &&& axis_overlap(p.x as int, ext.x as int, o.position.x as int, o.extents.x as int)
    &&& axis_overlap(p.y as int, ext.y as int, o.position.y as int, o.extents.y as int)
    &&& axis_overlap(p.z as int, ext.z as int, o.position.z as int, o.extents.z as int)
}

/// Some obstacle in the collection overlaps the mover placed at `p`.
pub open spec fn any_overlap(p: Vec3Fx, ext: Vec3Fx, obstacles: Seq<Obstacle>) -> bool {
    exists|i: int| 0 <= i < obstacles.len() && overlaps(p, ext, obstacles[i])
}

/// One axis of the overlap test, on fixed-point values.
fn axis_overlap_check(p: i64, ext: i64, op: i64, oext: i64) -> (r: bool)
    requires
        abs_val(p as int - op as int) <= 4_000_000_000_000,
        0 <= ext as int + oext as int <= 4_000_000_000_000,
    ensures
        r == axis_overlap(p as int, ext as int, op as int, oext as int),
{
    let gap = if p >= op {
        p - op
    } else {
        op - p
    };
    let sum = ext + oext;
    proof {
        assert(gap == abs_val(p as int - op as int));
        assert(20 * (gap as int) == 2 * SHRINK_DEN * (gap as int) && 7 * (sum as int) == SHRINK_NUM
            * (sum as int)) by (nonlinear_arith)
            requires
                SHRINK_DEN == 10,
                SHRINK_NUM == 7,
        ;
    }
    20 * gap <= 7 * sum
}

/// Whether the mover, placed at `p` with extents `ext`, would overlap this
/// one obstacle.
pub fn collides_with(p: Vec3Fx, ext: Vec3Fx, o: &Obstacle) -> (r: bool)
    requires
        proposed_wf(p),
        extents_wf(ext),
        obstacle_wf(*o),
    ensures
        r == overlaps(p, ext, *o),
{
    axis_overlap_check(p.x, ext.x, o.position.x, o.extents.x) && axis_overlap_check(
        p.y,
        ext.y,
        o.position.y,
        o.extents.y,
    ) && axis_overlap_check(p.z, ext.z, o.position.z, o.extents.z)
}

/// Whether the mover, placed at `p` with extents `ext`, would overlap any
/// obstacle in the collection. The result does not depend on the order of the
/// obstacles, only on whether an overlapping one exists.
pub fn collides(p: Vec3Fx, ext: Vec3Fx, obstacles: &Vec<Obstacle>) -> (r: bool)
    requires
        proposed_wf(p),
        extents_wf(ext),
        forall|i: int| 0 <= i < obstacles@.len() ==> obstacle_wf(obstacles@[i]),
    ensures
        r == any_overlap(p, ext, obstacles@),
{
    let mut i: usize = 0;
    while i < obstacles.len()
        invariant
            0 <= i <= obstacles@.len(),
            proposed_wf(p),
            extents_wf(ext),
            forall|j: int| 0 <= j < obstacles@.len() ==> obstacle_wf(obstacles@[j]),
            forall|j: int| 0 <= j < i ==> !overlaps(p, ext, obstacles@[j]),
        decreases obstacles@.len() - i,
    {
        if collides_with(p, ext, &obstacles[i]) {
            return true;
        }
        i += 1;
    }
    false
}

} // verus!
