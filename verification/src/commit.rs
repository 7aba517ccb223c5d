//! The motion committer: on a clear verdict the proposal is committed as it
//! stands; on a collision the mover is nudged a small fixed distance from the
//! proposal back toward where it currently stands.

use vstd::prelude::*;
use crate::fixed::{
    abs_val, div_toward_zero, isqrt_u64, lemma_sqrt_floor_exists, lemma_tdiv_abs_bound,
    lemma_tdiv_mul_le, lemma_tdiv_rem, lemma_tdiv_sign, sqrt_floor, tdiv, DIFF_LIMIT,
    PUSH_DISTANCE,
};
use crate::geom::{proposed_wf, Mover, Vec3Fx};

verus! {

/// The divisor that scales a gap with squared length `n` down to the push
/// length: the gap's exact length where `n` is a nonzero perfect square — the
/// nudge is then exactly `PUSH_DISTANCE` long up to component truncation —
/// and one more than the root floor otherwise, which keeps the nudge from
/// ever exceeding `PUSH_DISTANCE`.
pub open spec fn push_div(n: int) -> int {
    let len = sqrt_floor(n);
    if n > 0 && len * len == n {
        len
    } else {
        len + 1
    }
}

/// One component of the corrective nudge: the gap component scaled so the
/// whole nudge has length `PUSH_DISTANCE`; `n` is the squared length of the
/// gap.
pub open spec fn push_delta(d: int, n: int) -> int {
    tdiv(d * PUSH_DISTANCE, push_div(n))
}

/// Squared length of the gap from the proposal back to the current position.
pub open spec fn diff_mag_sq(cur: Vec3Fx, prop: Vec3Fx) -> int {
    (cur.x - prop.x) * (cur.x - prop.x) + (cur.y - prop.y) * (cur.y - prop.y) + (cur.z - prop.z) * (
    cur.z - prop.z)
}

/// The position a blocked mover is nudged to, one component at a time.
pub open spec fn corrected_x(cur: Vec3Fx, prop: Vec3Fx) -> int {
    cur.x + push_delta(cur.x - prop.x, diff_mag_sq(cur, prop))
}

pub open spec fn corrected_y(cur: Vec3Fx, prop: Vec3Fx) -> int {
    cur.y + push_delta(cur.y - prop.y, diff_mag_sq(cur, prop))
}

pub open spec fn corrected_z(cur: Vec3Fx, prop: Vec3Fx) -> int {
    cur.z + push_delta(cur.z - prop.z, diff_mag_sq(cur, prop))
}

/// Applies the frame's verdict. Clear path: the position becomes the proposal
/// exactly. Collision: every component moves by its `push_delta`, a nudge of
/// at most `PUSH_DISTANCE` per component that points from the proposal toward
/// the current position; a gap whose length is exactly representable (an
/// axis-aligned gap in particular) is nudged by exactly `PUSH_DISTANCE`, and
/// a proposal equal to the current position nudges nothing. The extents never
/// change.
pub fn commit_movement(mover: &mut Mover, proposed: Vec3Fx, collided: bool)
    requires
        proposed_wf(old(mover).position),
        proposed_wf(proposed),
        abs_val(old(mover).position.x as int - proposed.x as int) <= DIFF_LIMIT,
        abs_val(old(mover).position.y as int - proposed.y as int) <= DIFF_LIMIT,
        abs_val(old(mover).position.z as int - proposed.z as int) <= DIFF_LIMIT,
    ensures
        final(mover).extents == old(mover).extents,
        !collided ==> final(mover).position == proposed,
        collided ==> final(mover).position.x as int == corrected_x(old(mover).position, proposed),
        collided ==> final(mover).position.y as int == corrected_y(old(mover).position, proposed),
        collided ==> final(mover).position.z as int == corrected_z(old(mover).position, proposed),
        collided ==> abs_val(
            final(mover).position.x as int - old(mover).position.x as int,
        ) <= PUSH_DISTANCE,
        collided ==> abs_val(
            final(mover).position.y as int - old(mover).position.y as int,
        ) <= PUSH_DISTANCE,
        collided ==> abs_val(
            final(mover).position.z as int - old(mover).position.z as int,
        ) <= PUSH_DISTANCE,
        collided && old(mover).position == proposed ==> final(mover).position == old(
            mover,
        ).position,
{
    let cur = mover.position;
    if !collided {
        mover.position = proposed;
    } else {
        let dx = cur.x - proposed.x;
        let dy = cur.y - proposed.y;
        let dz = cur.z - proposed.z;
        let ax = (if dx >= 0 {
            dx
        } else {
            -dx
        }) as u64;
        let ay = (if dy >= 0 {
            dy
        } else {
            -dy
        }) as u64;
        let az = (if dz >= 0 {
            dz
        } else {
            -dz
        }) as u64;
        proof {
            assert(ax * ax <= 4_000_000_000_000_000_000 && ax as int * (ax as int) == (
            dx as int) * (dx as int)) by (nonlinear_arith)
                requires
                    ax as int == abs_val(dx as int),
                    ax <= 2_000_000_000u64,
            ;
            assert(ay * ay <= 4_000_000_000_000_000_000 && ay as int * (ay as int) == (
            dy as int) * (dy as int)) by (nonlinear_arith)
                requires
                    ay as int == abs_val(dy as int),
                    ay <= 2_000_000_000u64,
            ;
            assert(az * az <= 4_000_000_000_000_000_000 && az as int * (az as int) == (
            dz as int) * (dz as int)) by (nonlinear_arith)
                requires
                    az as int == abs_val(dz as int),
                    az <= 2_000_000_000u64,
            ;
        }
        let sum = ax * ax + ay * ay + az * az;
        proof {
            assert(sum as int == diff_mag_sq(cur, proposed));
        }
        let len = isqrt_u64(sum);
        proof {
            assert(len as int <= 4_000_000_000) by (nonlinear_arith)
                requires
                    (len as int) * (len as int) <= 12_000_000_000_000_000_000,
                    len as int >= 0,
            ;
            assert(abs_val(dx as int) <= len as int && abs_val(dy as int) <= len as int && abs_val(
                dz as int,
            ) <= len as int) by (nonlinear_arith)
                requires
                    abs_val(dx as int) * abs_val(dx as int) <= sum as int,
                    abs_val(dy as int) * abs_val(dy as int) <= sum as int,
                    abs_val(dz as int) * abs_val(dz as int) <= sum as int,
                    (sum as int) < ((len as int) + 1) * ((len as int) + 1),
                    len as int >= 0,
            ;
        }
        let exact = sum > 0 && len * len == sum;
        let denom = if exact {
            proof {
                if len == 0 {
                    assert((0int) * 0 == 0);
                    assert(false);
                }
            }
            len as i64
        } else {
            (len as i64) + 1
        };
        proof {
            assert(denom as int == push_div(sum as int));
            assert(len as int <= denom as int);
            assert(abs_val((dx as int) * PUSH_DISTANCE) <= PUSH_DISTANCE * (denom as int)
                && abs_val((dy as int) * PUSH_DISTANCE) <= PUSH_DISTANCE * (denom as int)
                && abs_val((dz as int) * PUSH_DISTANCE) <= PUSH_DISTANCE * (denom as int))
                by (nonlinear_arith)
                requires
                    PUSH_DISTANCE == 1000,
                    abs_val(dx as int) <= denom as int,
                    abs_val(dy as int) <= denom as int,
                    abs_val(dz as int) <= denom as int,
            ;
        }
        let px = div_toward_zero(dx * PUSH_DISTANCE, denom);
        let py = div_toward_zero(dy * PUSH_DISTANCE, denom);
        let pz = div_toward_zero(dz * PUSH_DISTANCE, denom);
        proof {
            lemma_tdiv_abs_bound((dx as int) * PUSH_DISTANCE, denom as int, PUSH_DISTANCE as int);
            lemma_tdiv_abs_bound((dy as int) * PUSH_DISTANCE, denom as int, PUSH_DISTANCE as int);
            lemma_tdiv_abs_bound((dz as int) * PUSH_DISTANCE, denom as int, PUSH_DISTANCE as int);
        }
        mover.position = Vec3Fx { x: cur.x + px, y: cur.y + py, z: cur.z + pz };
    }
}

/// A zero gap component is never nudged, whatever the whole gap's length.
pub proof fn lemma_push_delta_zero(n: int)
    requires
        n >= 0,
    ensures
        push_delta(0, n) == 0,
{
    lemma_sqrt_floor_exists(n);
    let b = push_div(n);
    if n > 0 && sqrt_floor(n) * sqrt_floor(n) == n {
        if sqrt_floor(n) == 0 {
            assert((0int) * 0 == 0);
            assert(false);
        }
    }
    assert(tdiv(0 * PUSH_DISTANCE, b) == 0) by (nonlinear_arith)
        requires
            b >= 1,
            PUSH_DISTANCE == 1000,
    ;
}

/// Squared length of the corrective nudge a blocked mover receives.
pub open spec fn correction_mag_sq(cur: Vec3Fx, prop: Vec3Fx) -> int {
    let n = diff_mag_sq(cur, prop);
    push_delta(cur.x - prop.x, n) * push_delta(cur.x - prop.x, n) + push_delta(cur.y - prop.y, n)
        * push_delta(cur.y - prop.y, n) + push_delta(cur.z - prop.z, n) * push_delta(
        cur.z - prop.z,
        n,
    )
}

/// The corrective nudge is the fixed push distance, within truncation: its
/// squared length never exceeds `PUSH_DISTANCE` squared, and for a nonzero
/// gap it falls short by at most the component truncations — when the gap's
/// length is exact (a perfect-square `diff_mag_sq`, as every axis-aligned gap
/// has) the squared length is at least `PUSH_DISTANCE² - 6·PUSH_DISTANCE`,
/// and otherwise at least `len²/(len+1)²` of that, `len` being the root floor
/// of the squared gap. Each component carries the sign of the gap
/// `current - proposed`: the nudge points from the proposal toward the
/// pre-frame position.
pub proof fn lemma_correction_within_push(cur: Vec3Fx, prop: Vec3Fx)
    ensures
        correction_mag_sq(cur, prop) <= PUSH_DISTANCE * PUSH_DISTANCE,
        push_delta(cur.x - prop.x, diff_mag_sq(cur, prop)) * (cur.x - prop.x) >= 0,
        push_delta(cur.y - prop.y, diff_mag_sq(cur, prop)) * (cur.y - prop.y) >= 0,
        push_delta(cur.z - prop.z, diff_mag_sq(cur, prop)) * (cur.z - prop.z) >= 0,
        diff_mag_sq(cur, prop) > 0 && sqrt_floor(diff_mag_sq(cur, prop)) * sqrt_floor(
            diff_mag_sq(cur, prop),
        ) == diff_mag_sq(cur, prop) ==> correction_mag_sq(cur, prop) >= PUSH_DISTANCE
            * PUSH_DISTANCE - 6 * PUSH_DISTANCE,
        diff_mag_sq(cur, prop) > 0 && sqrt_floor(diff_mag_sq(cur, prop)) * sqrt_floor(
            diff_mag_sq(cur, prop),
        ) != diff_mag_sq(cur, prop) ==> correction_mag_sq(cur, prop) * ((sqrt_floor(
            diff_mag_sq(cur, prop),
        ) + 1) * (sqrt_floor(diff_mag_sq(cur, prop)) + 1)) >= (sqrt_floor(diff_mag_sq(cur, prop))
            * sqrt_floor(diff_mag_sq(cur, prop))) * (PUSH_DISTANCE * PUSH_DISTANCE - 6
            * PUSH_DISTANCE),
{
    let d1 = cur.x as int - prop.x as int;
    let d2 = cur.y as int - prop.y as int;
    let d3 = cur.z as int - prop.z as int;
    let n = diff_mag_sq(cur, prop);
    assert(d1 * d1 >= 0 && d2 * d2 >= 0 && d3 * d3 >= 0) by (nonlinear_arith);
    lemma_sqrt_floor_exists(n);
    let len = sqrt_floor(n);
    let b = push_div(n);
    if n > 0 && len * len == n && len == 0 {
        assert((0int) * 0 == 0);
        assert(false);
    }
    assert(b >= 1 && len <= b && b - 1 <= len);
    assert(abs_val(d1) <= len && abs_val(d2) <= len && abs_val(d3) <= len) by (nonlinear_arith)
        requires
            d1 * d1 <= n,
            d2 * d2 <= n,
            d3 * d3 <= n,
            n < (len + 1) * (len + 1),
            len >= 0,
    ;
    let p1 = push_delta(d1, n);
    let p2 = push_delta(d2, n);
    let p3 = push_delta(d3, n);
    lemma_tdiv_mul_le(d1 * PUSH_DISTANCE, b);
    lemma_tdiv_mul_le(d2 * PUSH_DISTANCE, b);
    lemma_tdiv_mul_le(d3 * PUSH_DISTANCE, b);
    assert(p1 * p1 * (b * b) <= d1 * d1 * (PUSH_DISTANCE * PUSH_DISTANCE)) by (nonlinear_arith)
        requires
            b >= 1,
            PUSH_DISTANCE == 1000,
            abs_val(p1) * b <= abs_val(d1 * PUSH_DISTANCE),
            p1 == tdiv(d1 * PUSH_DISTANCE, b),
    ;
    assert(p2 * p2 * (b * b) <= d2 * d2 * (PUSH_DISTANCE * PUSH_DISTANCE)) by (nonlinear_arith)
        requires
            b >= 1,
            PUSH_DISTANCE == 1000,
            abs_val(p2) * b <= abs_val(d2 * PUSH_DISTANCE),
            p2 == tdiv(d2 * PUSH_DISTANCE, b),
    ;
    assert(p3 * p3 * (b * b) <= d3 * d3 * (PUSH_DISTANCE * PUSH_DISTANCE)) by (nonlinear_arith)
        requires
            b >= 1,
            PUSH_DISTANCE == 1000,
            abs_val(p3) * b <= abs_val(d3 * PUSH_DISTANCE),
            p3 == tdiv(d3 * PUSH_DISTANCE, b),
    ;
    assert(p1 * p1 >= 0 && p2 * p2 >= 0 && p3 * p3 >= 0) by (nonlinear_arith);
    assert((p1 * p1 + p2 * p2 + p3 * p3) * (b * b) <= (d1 * d1 + d2 * d2 + d3 * d3) * (
    PUSH_DISTANCE * PUSH_DISTANCE)) by (nonlinear_arith)
        requires
            p1 * p1 * (b * b) <= d1 * d1 * (PUSH_DISTANCE * PUSH_DISTANCE),
            p2 * p2 * (b * b) <= d2 * d2 * (PUSH_DISTANCE * PUSH_DISTANCE),
            p3 * p3 * (b * b) <= d3 * d3 * (PUSH_DISTANCE * PUSH_DISTANCE),
    ;
    if n > 0 && len * len == n {
        assert(p1 * p1 + p2 * p2 + p3 * p3 <= PUSH_DISTANCE * PUSH_DISTANCE) by (nonlinear_arith)
            requires
                (p1 * p1 + p2 * p2 + p3 * p3) * (b * b) <= n * (PUSH_DISTANCE * PUSH_DISTANCE),
                n == b * b,
                n > 0,
        ;
    } else {
        assert(p1 * p1 + p2 * p2 + p3 * p3 <= PUSH_DISTANCE * PUSH_DISTANCE) by (nonlinear_arith)
            requires
                b >= 1,
                PUSH_DISTANCE == 1000,
                (p1 * p1 + p2 * p2 + p3 * p3) * (b * b) <= n * (PUSH_DISTANCE * PUSH_DISTANCE),
                n < b * b,
                p1 * p1 + p2 * p2 + p3 * p3 >= 0,
        ;
    }
    lemma_tdiv_sign(d1 * PUSH_DISTANCE, b);
    lemma_tdiv_sign(d2 * PUSH_DISTANCE, b);
    lemma_tdiv_sign(d3 * PUSH_DISTANCE, b);
    assert(p1 * d1 >= 0 && p2 * d2 >= 0 && p3 * d3 >= 0) by (nonlinear_arith)
        requires
            PUSH_DISTANCE == 1000,
            d1 * PUSH_DISTANCE >= 0 ==> p1 >= 0,
            d1 * PUSH_DISTANCE <= 0 ==> p1 <= 0,
            d2 * PUSH_DISTANCE >= 0 ==> p2 >= 0,
            d2 * PUSH_DISTANCE <= 0 ==> p2 <= 0,
            d3 * PUSH_DISTANCE >= 0 ==> p3 >= 0,
            d3 * PUSH_DISTANCE <= 0 ==> p3 <= 0,
    ;
    if n > 0 {
        lemma_tdiv_rem(d1 * PUSH_DISTANCE, b);
        lemma_tdiv_rem(d2 * PUSH_DISTANCE, b);
        lemma_tdiv_rem(d3 * PUSH_DISTANCE, b);
        assert((p1 * b) * (p1 * b) >= (d1 * d1) * (PUSH_DISTANCE * PUSH_DISTANCE) - 2 * abs_val(d1)
            * (PUSH_DISTANCE * (b - 1))) by (nonlinear_arith)
            requires
                b >= 1,
                PUSH_DISTANCE == 1000,
                abs_val(d1 * PUSH_DISTANCE - b * p1) <= b - 1,
                p1 == tdiv(d1 * PUSH_DISTANCE, b),
        ;
        assert((p2 * b) * (p2 * b) >= (d2 * d2) * (PUSH_DISTANCE * PUSH_DISTANCE) - 2 * abs_val(d2)
            * (PUSH_DISTANCE * (b - 1))) by (nonlinear_arith)
            requires
                b >= 1,
                PUSH_DISTANCE == 1000,
                abs_val(d2 * PUSH_DISTANCE - b * p2) <= b - 1,
                p2 == tdiv(d2 * PUSH_DISTANCE, b),
        ;
        assert((p3 * b) * (p3 * b) >= (d3 * d3) * (PUSH_DISTANCE * PUSH_DISTANCE) - 2 * abs_val(d3)
            * (PUSH_DISTANCE * (b - 1))) by (nonlinear_arith)
            requires
                b >= 1,
                PUSH_DISTANCE == 1000,
                abs_val(d3 * PUSH_DISTANCE - b * p3) <= b - 1,
                p3 == tdiv(d3 * PUSH_DISTANCE, b),
        ;
        assert((p1 * p1 + p2 * p2 + p3 * p3) * (b * b) == (p1 * b) * (p1 * b) + (p2 * b) * (p2 * b)
            + (p3 * b) * (p3 * b)) by (nonlinear_arith);
        assert((d1 * d1) * (PUSH_DISTANCE * PUSH_DISTANCE) + (d2 * d2) * (PUSH_DISTANCE
            * PUSH_DISTANCE) + (d3 * d3) * (PUSH_DISTANCE * PUSH_DISTANCE) == n * (PUSH_DISTANCE
            * PUSH_DISTANCE)) by (nonlinear_arith)
            requires
                d1 * d1 + d2 * d2 + d3 * d3 == n,
        ;
        assert(2 * abs_val(d1) * (PUSH_DISTANCE * (b - 1)) + 2 * abs_val(d2) * (PUSH_DISTANCE * (b
            - 1)) + 2 * abs_val(d3) * (PUSH_DISTANCE * (b - 1)) == 2 * (abs_val(d1) + abs_val(d2)
            + abs_val(d3)) * (PUSH_DISTANCE * (b - 1))) by (nonlinear_arith);
        assert((p1 * p1 + p2 * p2 + p3 * p3) * (b * b) >= n * (PUSH_DISTANCE * PUSH_DISTANCE) - 2
            * (abs_val(d1) + abs_val(d2) + abs_val(d3)) * (PUSH_DISTANCE * (b - 1)));
        assert(n * (PUSH_DISTANCE * PUSH_DISTANCE) - 2 * (abs_val(d1) + abs_val(d2) + abs_val(d3))
            * (PUSH_DISTANCE * (b - 1)) >= (len * len) * (PUSH_DISTANCE * PUSH_DISTANCE - 6
            * PUSH_DISTANCE)) by (nonlinear_arith)
            requires
                PUSH_DISTANCE == 1000,
                n >= len * len,
                0 <= abs_val(d1) <= len,
                0 <= abs_val(d2) <= len,
                0 <= abs_val(d3) <= len,
                0 <= b - 1 <= len,
        ;
        if len * len == n {
            assert(p1 * p1 + p2 * p2 + p3 * p3 >= PUSH_DISTANCE * PUSH_DISTANCE - 6
                * PUSH_DISTANCE) by (nonlinear_arith)
                requires
                    (p1 * p1 + p2 * p2 + p3 * p3) * (b * b) >= (len * len) * (PUSH_DISTANCE
                        * PUSH_DISTANCE - 6 * PUSH_DISTANCE),
                    b == len,
                    len >= 1,
            ;
        }
    }
}

} // verus!
