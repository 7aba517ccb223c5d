//! The intent resolver: held keys plus the mover's orientation give a
//! direction, normalized so diagonals are no faster, scaled by speed and
//! frame time, and added to the current position with the vertical pinned to
//! the ground height.

use vstd::prelude::*;
use crate::fixed::{
    abs_val, div_toward_zero, tdiv, DT_LIMIT, GROUND_HEIGHT, INV_SQRT2_DEN, INV_SQRT2_NUM,
    MAX_STEP, SCALE, SPEED,
};
use crate::fixed::{lemma_tdiv_abs_bound, lemma_tdiv_rem};
use crate::geom::{
    orientation_orthonormal, orientation_wf, pos_wf, proposed_wf, KeyState, Orientation, Vec3Fx,
};

verus! {

/// What one key pair contributes of a basis component: the component if the
/// positive key is held, minus the component if the negative key is held.
/// Opposing keys held together cancel exactly.
pub open spec fn axis_contrib(pos_held: bool, neg_held: bool, c: int) -> int {
    (if pos_held {
        c
    } else {
        0
    }) - (if neg_held {
        c
    } else {
        0
    })
}

/// The un-normalized direction the held keys select, one component at a time.
pub open spec fn raw_dir_x(o: Orientation, k: KeyState) -> int {
    axis_contrib(k.forward, k.back, o.forward.x as int) + axis_contrib(
        k.right,
        k.left,
        o.right.x as int,
    )
}

pub open spec fn raw_dir_y(o: Orientation, k: KeyState) -> int {
    axis_contrib(k.forward, k.back, o.forward.y as int) + axis_contrib(
        k.right,
        k.left,
        o.right.y as int,
    )
}

pub open spec fn raw_dir_z(o: Orientation, k: KeyState) -> int {
    axis_contrib(k.forward, k.back, o.forward.z as int) + axis_contrib(
        k.right,
        k.left,
        o.right.z as int,
    )
}

/// Squared length of the un-normalized direction vector.
pub open spec fn raw_dir_mag_sq(o: Orientation, k: KeyState) -> int {
    raw_dir_x(o, k) * raw_dir_x(o, k) + raw_dir_y(o, k) * raw_dir_y(o, k) + raw_dir_z(o, k)
        * raw_dir_z(o, k)
}

/// Both movement axes are active at once, so the direction is a diagonal of
/// length `sqrt(2)` times a unit vector and must be scaled down.
pub open spec fn diagonal_input(k: KeyState) -> bool {
    (k.forward != k.back) && (k.left != k.right)
}

/// One component of the frame's displacement: the direction component scaled
/// by speed and frame time, brought back to coordinate scale by a truncating
/// division, and scaled by `1 / sqrt(2)` when the direction is a diagonal.
pub open spec fn step_disp(raw: int, dt: int, diagonal: bool) -> int {
    let base = tdiv(raw * SPEED * dt, SCALE as int);
    if diagonal {
        tdiv(base * INV_SQRT2_NUM, INV_SQRT2_DEN as int)
    } else {
        base
    }
}

/// The position the resolver proposes, one component at a time; the vertical
/// component is always the ground height.
pub open spec fn proposed_x(pos: Vec3Fx, o: Orientation, k: KeyState, dt: int) -> int {
    pos.x + step_disp(raw_dir_x(o, k), dt, diagonal_input(k))
}

pub open spec fn proposed_z(pos: Vec3Fx, o: Orientation, k: KeyState, dt: int) -> int {
    pos.z + step_disp(raw_dir_z(o, k), dt, diagonal_input(k))
}

/// A zero direction component moves nothing, whatever the frame time and
/// whether or not the input counts as diagonal.
pub proof fn lemma_step_disp_zero(dt: int, diagonal: bool)
    ensures
        step_disp(0, dt, diagonal) == 0,
{
    assert(step_disp(0, dt, diagonal) == 0) by (nonlinear_arith)
        requires
            SPEED == 10,
            SCALE == 1_000_000,
            INV_SQRT2_NUM == 707_107,
            INV_SQRT2_DEN == 1_000_000,
    ;
}

/// Opposing keys cancel: when forward and back are both held or both free,
/// and likewise left and right, the frame proposes no displacement at all —
/// the proposal is the current position with its vertical pinned.
pub proof fn lemma_opposing_keys_cancel(pos: Vec3Fx, o: Orientation, k: KeyState, dt: int)
    requires
        k.forward == k.back,
        k.left == k.right,
    ensures
        proposed_x(pos, o, k, dt) == pos.x,
        proposed_z(pos, o, k, dt) == pos.z,
{
    assert(raw_dir_x(o, k) == 0);
    assert(raw_dir_z(o, k) == 0);
    lemma_step_disp_zero(dt, diagonal_input(k));
}

/// No key held proposes exactly the current position: a grounded mover stays
/// put, on every component. The collision verdict on such a proposal is then
/// the verdict on the position the mover already holds.
pub proof fn lemma_idle_keys_identity(pos: Vec3Fx, o: Orientation, k: KeyState, dt: int)
    requires
        !k.forward,
        !k.back,
        !k.left,
        !k.right,
        pos.y == GROUND_HEIGHT,
    ensures
        proposed_x(pos, o, k, dt) == pos.x,
        proposed_z(pos, o, k, dt) == pos.z,
        GROUND_HEIGHT == pos.y,
{
    lemma_opposing_keys_cancel(pos, o, k, dt);
}

/// With an orthonormal orientation, a two-key diagonal direction has squared
/// length exactly `2 * SCALE * SCALE`: the resolver's `1 / sqrt(2)` scaling
/// therefore brings the frame's displacement back to magnitude
/// `SPEED * dt` — the same as a single key — rather than `sqrt(2)` times it.
pub proof fn lemma_diagonal_dir_magnitude(o: Orientation, k: KeyState)
    requires
        orientation_orthonormal(o),
        k.forward != k.back,
        k.left != k.right,
    ensures
        raw_dir_mag_sq(o, k) == 2 * SCALE * SCALE,
{
    let fx = o.forward.x as int;
    let fy = o.forward.y as int;
    let fz = o.forward.z as int;
    let rx = o.right.x as int;
    let ry = o.right.y as int;
    let rz = o.right.z as int;
    let s2 = (SCALE as int) * (SCALE as int);
    assert((fx + rx) * (fx + rx) + (fy + ry) * (fy + ry) + (fz + rz) * (fz + rz) == 2 * s2)
        by (nonlinear_arith)
        requires
            fx * fx + fy * fy + fz * fz == s2,
            rx * rx + ry * ry + rz * rz == s2,
            fx * rx + fy * ry + fz * rz == 0,
    ;
    assert((fx - rx) * (fx - rx) + (fy - ry) * (fy - ry) + (fz - rz) * (fz - rz) == 2 * s2)
        by (nonlinear_arith)
        requires
            fx * fx + fy * fy + fz * fz == s2,
            rx * rx + ry * ry + rz * rz == s2,
            fx * rx + fy * ry + fz * rz == 0,
    ;
    assert((rx - fx) * (rx - fx) + (ry - fy) * (ry - fy) + (rz - fz) * (rz - fz) == 2 * s2)
        by (nonlinear_arith)
        requires
            fx * fx + fy * fy + fz * fz == s2,
            rx * rx + ry * ry + rz * rz == s2,
            fx * rx + fy * ry + fz * rz == 0,
    ;
    assert((-fx - rx) * (-fx - rx) + (-fy - ry) * (-fy - ry) + (-fz - rz) * (-fz - rz) == 2 * s2)
        by (nonlinear_arith)
        requires
            fx * fx + fy * fy + fz * fz == s2,
            rx * rx + ry * ry + rz * rz == s2,
            fx * rx + fy * ry + fz * rz == 0,
    ;
}

/// A single held key selects a unit direction: squared length exactly
/// `SCALE * SCALE`, so the displacement magnitude is `SPEED * dt` with no
/// diagonal scaling applied.
pub proof fn lemma_single_axis_dir_magnitude(o: Orientation, k: KeyState)
    requires
        orientation_orthonormal(o),
        (k.forward != k.back) != (k.left != k.right),
    ensures
        raw_dir_mag_sq(o, k) == (SCALE as int) * (SCALE as int),
{
    let fx = o.forward.x as int;
    let fy = o.forward.y as int;
    let fz = o.forward.z as int;
    let rx = o.right.x as int;
    let ry = o.right.y as int;
    let rz = o.right.z as int;
    let s2 = (SCALE as int) * (SCALE as int);
    assert((-fx) * (-fx) + (-fy) * (-fy) + (-fz) * (-fz) == s2 && (-rx) * (-rx) + (-ry) * (-ry) + (
    -rz) * (-rz) == s2) by (nonlinear_arith)
        requires
            fx * fx + fy * fy + fz * fz == s2,
            rx * rx + ry * ry + rz * rz == s2,
    ;
}

/// One diagonal displacement component, times the common denominator
/// `SCALE * INV_SQRT2_DEN`, is within the truncation slack
/// `SCALE * (INV_SQRT2_NUM + INV_SQRT2_DEN)` of the exact value
/// `raw * SPEED * dt * INV_SQRT2_NUM`.
pub proof fn lemma_diagonal_component_exact(raw: int, dt: int)
    requires
        0 <= dt,
    ensures
        abs_val(
            step_disp(raw, dt, true) * (SCALE * INV_SQRT2_DEN) - raw * SPEED * dt
                * INV_SQRT2_NUM,
        ) < SCALE * (INV_SQRT2_NUM + INV_SQRT2_DEN),
{
    let base = tdiv(raw * SPEED * dt, SCALE as int);
    let s = step_disp(raw, dt, true);
    lemma_tdiv_rem(raw * SPEED * dt, SCALE as int);
    lemma_tdiv_rem(base * INV_SQRT2_NUM, INV_SQRT2_DEN as int);
    assert(abs_val(s * (SCALE * INV_SQRT2_DEN) - raw * SPEED * dt * INV_SQRT2_NUM) < SCALE * (
    INV_SQRT2_NUM + INV_SQRT2_DEN)) by (nonlinear_arith)
        requires
            SCALE == 1_000_000,
            INV_SQRT2_NUM == 707_107,
            INV_SQRT2_DEN == 1_000_000,
            abs_val(raw * SPEED * dt - SCALE * base) < SCALE,
            abs_val(base * INV_SQRT2_NUM - INV_SQRT2_DEN * s) < INV_SQRT2_DEN,
            s == tdiv(base * INV_SQRT2_NUM, INV_SQRT2_DEN as int),
            base == tdiv(raw * SPEED * dt, SCALE as int),
    ;
}

/// Two perpendicular keys move at single-key speed. For a horizontal
/// orthonormal orientation and a diagonal input, the squared magnitude of the
/// frame's proposed displacement — taken over the common denominator
/// `SCALE * INV_SQRT2_DEN` — equals `(SPEED * dt)²` up to the stated slack:
/// the `1 / sqrt(2)` rational approximation (`2 * INV_SQRT2_NUM² ==
/// INV_SQRT2_DEN² + 618_898`, a relative error under `7e-7`) plus the two
/// component truncations. In particular it is nowhere near
/// `2 * (SPEED * dt)²`, the un-normalized diagonal.
pub proof fn lemma_diagonal_step_magnitude(o: Orientation, k: KeyState, dt: int)
    requires
        orientation_orthonormal(o),
        orientation_wf(o),
        o.forward.y == 0,
        o.right.y == 0,
        k.forward != k.back,
        k.left != k.right,
        0 <= dt,
    ensures
        abs_val(
            (step_disp(raw_dir_x(o, k), dt, true) * step_disp(raw_dir_x(o, k), dt, true)
                + step_disp(raw_dir_z(o, k), dt, true) * step_disp(raw_dir_z(o, k), dt, true)) * ((
            SCALE * INV_SQRT2_DEN) * (SCALE * INV_SQRT2_DEN)) - (SPEED * dt * (SCALE
                * INV_SQRT2_DEN)) * (SPEED * dt * (SCALE * INV_SQRT2_DEN)),
        ) <= SPEED * dt * (SPEED * dt) * ((SCALE * SCALE) * 618_898) + SPEED * dt
            * 10_000_000_000_000_000_000_000_000 + 6_000_000_000_000_000_000_000_000,
{
    let rx = raw_dir_x(o, k);
    let rz = raw_dir_z(o, k);
    let sx = step_disp(rx, dt, true);
    let sz = step_disp(rz, dt, true);
    let m = (SCALE as int) * (INV_SQRT2_DEN as int);
    let g = SPEED * dt;
    let ax = rx * SPEED * dt * INV_SQRT2_NUM;
    let az = rz * SPEED * dt * INV_SQRT2_NUM;
    let slack = SCALE * (INV_SQRT2_NUM + INV_SQRT2_DEN);
    lemma_diagonal_component_exact(rx, dt);
    lemma_diagonal_component_exact(rz, dt);
    lemma_diagonal_dir_magnitude(o, k);
    assert(raw_dir_y(o, k) == 0);
    assert(rx * rx + rz * rz == 2 * SCALE * SCALE);
    assert(-2 * SCALE <= rx <= 2 * SCALE && -2 * SCALE <= rz <= 2 * SCALE);
    assert(g >= 0 && abs_val(ax) <= g * (2_000_000 * 707_107) && abs_val(az) <= g * (2_000_000
        * 707_107)) by (nonlinear_arith)
        requires
            SPEED == 10,
            SCALE == 1_000_000,
            INV_SQRT2_NUM == 707_107,
            dt >= 0,
            -2 * SCALE <= rx <= 2 * SCALE,
            -2 * SCALE <= rz <= 2 * SCALE,
            ax == rx * SPEED * dt * INV_SQRT2_NUM,
            az == rz * SPEED * dt * INV_SQRT2_NUM,
            g == SPEED * dt,
    ;
    assert(abs_val((sx * m) * (sx * m) - ax * ax) <= g * 4_900_000_000_000_000_000_000_000
        + 3_000_000_000_000_000_000_000_000) by (nonlinear_arith)
        requires
            abs_val(sx * m - ax) < slack,
            slack == 1_707_107_000_000,
            abs_val(ax) <= g * (2_000_000 * 707_107),
            g >= 0,
    ;
    assert(abs_val((sz * m) * (sz * m) - az * az) <= g * 4_900_000_000_000_000_000_000_000
        + 3_000_000_000_000_000_000_000_000) by (nonlinear_arith)
        requires
            abs_val(sz * m - az) < slack,
            slack == 1_707_107_000_000,
            abs_val(az) <= g * (2_000_000 * 707_107),
            g >= 0,
    ;
    assert(ax * ax + az * az == (g * m) * (g * m) + g * g * ((SCALE * SCALE) * 618_898))
        by (nonlinear_arith)
        requires
            SCALE == 1_000_000,
            INV_SQRT2_NUM == 707_107,
            INV_SQRT2_DEN == 1_000_000,
            rx * rx + rz * rz == 2 * SCALE * SCALE,
            ax == rx * SPEED * dt * INV_SQRT2_NUM,
            az == rz * SPEED * dt * INV_SQRT2_NUM,
            g == SPEED * dt,
            m == SCALE * INV_SQRT2_DEN,
    ;
    assert((sx * sx + sz * sz) * (m * m) == (sx * m) * (sx * m) + (sz * m) * (sz * m))
        by (nonlinear_arith);
    assert(g * g * ((SCALE * SCALE) * 618_898) >= 0 && g * 4_900_000_000_000_000_000_000_000 >= 0)
        by (nonlinear_arith)
        requires
            g >= 0,
            SCALE == 1_000_000,
    ;
    assert(abs_val((sx * sx + sz * sz) * (m * m) - (g * m) * (g * m)) <= g * g * ((SCALE * SCALE)
        * 618_898) + g * 10_000_000_000_000_000_000_000_000 + 6_000_000_000_000_000_000_000_000);
}

/// One displacement component at coordinate scale.
fn step_component(m: i64, dt: i64, diagonal: bool) -> (r: i64)
    requires
        -2_000_000 <= m <= 2_000_000,
        0 <= dt <= DT_LIMIT,
    ensures
        r as int == step_disp(m as int, dt as int, diagonal),
        abs_val(r as int) <= MAX_STEP,
{
    proof {
        assert(-20_000_000 <= m as int * SPEED <= 20_000_000 && -200_000_000_000_000 <= m as int
            * SPEED * (dt as int) <= 200_000_000_000_000) by (nonlinear_arith)
            requires
                SPEED == 10,
                -2_000_000 <= m as int <= 2_000_000,
                0 <= dt as int <= 10_000_000,
        ;
    }
    let num = m * SPEED * dt;
    let base = div_toward_zero(num, SCALE);
    proof {
        lemma_tdiv_abs_bound(num as int, SCALE as int, 200_000_000);
    }
    if diagonal {
        proof {
            assert(-200_000_000_000_000 <= base as int * INV_SQRT2_NUM <= 200_000_000_000_000)
                by (nonlinear_arith)
                requires
                    INV_SQRT2_NUM == 707_107,
                    -200_000_000 <= base as int <= 200_000_000,
            ;
        }
        let scaled = base * INV_SQRT2_NUM;
        let r = div_toward_zero(scaled, INV_SQRT2_DEN);
        proof {
            lemma_tdiv_abs_bound(scaled as int, INV_SQRT2_DEN as int, 200_000_000);
        }
        r
    } else {
        base
    }
}

/// Resolves the held keys against the current orientation into the position
/// the mover intends to reach this frame. No keys, or keys that cancel, give
/// back the current position with the vertical pinned; the proposal never
/// moves any component by more than `MAX_STEP`.
///
/// Normalizing the key sum reduces to the key count when the orientation's
/// basis vectors are orthonormal, as a camera basis is: one active axis gives
/// a unit direction already, two give a diagonal of length `sqrt(2)`, so the
/// diagonal case is scaled by `1 / sqrt(2)` (see
/// `lemma_diagonal_dir_magnitude`).
pub fn propose_position(pos: Vec3Fx, orient: Orientation, keys: KeyState, dt: i64) -> (r: Vec3Fx)
    requires
        pos_wf(pos),
        orientation_wf(orient),
        0 <= dt <= DT_LIMIT,
    ensures
        r.x as int == proposed_x(pos, orient, keys, dt as int),
        r.y == GROUND_HEIGHT,
        r.z as int == proposed_z(pos, orient, keys, dt as int),
        abs_val(r.x as int - pos.x as int) <= MAX_STEP,
        abs_val(r.z as int - pos.z as int) <= MAX_STEP,
        proposed_wf(r),
{
    let mut mx: i64 = 0;
    let mut mz: i64 = 0;
    if keys.forward {
        mx = mx + orient.forward.x;
        mz = mz + orient.forward.z;
    }
    if keys.back {
        mx = mx - orient.forward.x;
        mz = mz - orient.forward.z;
    }
    if keys.right {
        mx = mx + orient.right.x;
        mz = mz + orient.right.z;
    }
    if keys.left {
        mx = mx - orient.right.x;
        mz = mz - orient.right.z;
    }
    proof {
        assert(mx as int == raw_dir_x(orient, keys));
        assert(mz as int == raw_dir_z(orient, keys));
    }
    let diagonal = (keys.forward != keys.back) && (keys.left != keys.right);
    let dx = step_component(mx, dt, diagonal);
    let dz = step_component(mz, dt, diagonal);
    Vec3Fx { x: pos.x + dx, y: GROUND_HEIGHT, z: pos.z + dz }
}

} // verus!
