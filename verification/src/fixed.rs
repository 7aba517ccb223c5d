//! Fixed-point scalar arithmetic: the scale, the tuning constants, and the
//! two integer primitives the pipeline needs (truncating division and the
//! floor of a square root).

use vstd::prelude::*;

verus! {

/// Fixed-point units per world unit: coordinates are micro-units.
pub const SCALE: i64 = 1_000_000;

/// Vertical coordinate every resolved position is pinned to (1.0 world units).
pub const GROUND_HEIGHT: i64 = 1_000_000;

/// Mover speed in world units per second.
pub const SPEED: i64 = 10;

/// The collision envelope is shrunk to `SHRINK_NUM / SHRINK_DEN` (0.7) of the
/// true geometric bound, so the mover may approach obstacles closely.
pub const SHRINK_NUM: i64 = 7;
pub const SHRINK_DEN: i64 = 10;

/// Magnitude of the corrective nudge applied on collision (0.001 world units).
pub const PUSH_DISTANCE: i64 = 1000;

/// `INV_SQRT2_NUM / INV_SQRT2_DEN` approximates `1 / sqrt(2)`, used to
/// normalize a two-key diagonal direction.
pub const INV_SQRT2_NUM: i64 = 707_107;
pub const INV_SQRT2_DEN: i64 = 1_000_000;

/// Largest coordinate magnitude the pipeline accepts (a million world units);
/// keeps every intermediate product inside `i64`.
pub const POS_LIMIT: i64 = 1_000_000_000_000;

/// Largest per-component displacement one frame can propose.
pub const MAX_STEP: i64 = 200_000_000;

/// Largest per-component gap between current and proposed position that the
/// committer accepts; keeps the squared magnitude inside `u64`.
pub const DIFF_LIMIT: i64 = 2_000_000_000;

/// Largest frame delta accepted, in micro-seconds (ten seconds).
pub const DT_LIMIT: i64 = 10_000_000;

/// Absolute value over `int`.
pub open spec fn abs_val(a: int) -> int {
    if a >= 0 {
        a
    } else {
        -a
    }
}

/// Division truncating toward zero, as Rust's `/` rounds on signed integers.
pub open spec fn tdiv(a: int, b: int) -> int {
    if a >= 0 {
        a / b
    } else {
        -((-a) / b)
    }
}

/// Truncating division for positive divisors; the spec-level mirror is `tdiv`.
pub fn div_toward_zero(a: i64, b: i64) -> (r: i64)
    requires
        b > 0,
        a > i64::MIN,
    ensures
        r == tdiv(a as int, b as int),
{
    if a >= 0 {
        let q = (a as u64) / (b as u64);
        proof {
            assert((a as u64) / (b as u64) <= a as u64) by (nonlinear_arith)
                requires
                    b as u64 >= 1,
            ;
        }
        q as i64
    } else {
        let m = (-a) as u64;
        let q = m / (b as u64);
        proof {
            assert(m / (b as u64) <= m) by (nonlinear_arith)
                requires
                    b as u64 >= 1,
            ;
        }
        -(q as i64)
    }
}

/// Truncating division never grows the magnitude of the numerator, even after
/// multiplying back by the divisor.
pub proof fn lemma_tdiv_mul_le(a: int, b: int)
    requires
        b > 0,
    ensures
        abs_val(tdiv(a, b)) * b <= abs_val(a),
{
    assert(abs_val(tdiv(a, b)) * b <= abs_val(a)) by (nonlinear_arith)
        requires
            b > 0,
    ;
}

/// Truncating division keeps the sign of the numerator.
pub proof fn lemma_tdiv_sign(a: int, b: int)
    requires
        b > 0,
    ensures
        a >= 0 ==> tdiv(a, b) >= 0,
        a <= 0 ==> tdiv(a, b) <= 0,
        a == 0 ==> tdiv(a, b) == 0,
{
    assert((a >= 0 ==> tdiv(a, b) >= 0) && (a <= 0 ==> tdiv(a, b) <= 0) && (a == 0 ==> tdiv(a, b)
        == 0)) by (nonlinear_arith)
        requires
            b > 0,
    ;
}

/// A numerator bound `m * b` bounds the truncated quotient by `m`.
pub proof fn lemma_tdiv_abs_bound(a: int, b: int, m: int)
    requires
        b > 0,
        abs_val(a) <= m * b,
    ensures
        abs_val(tdiv(a, b)) <= m,
{
    lemma_tdiv_mul_le(a, b);
    assert(abs_val(tdiv(a, b)) <= m) by (nonlinear_arith)
        requires
            b > 0,
            abs_val(tdiv(a, b)) * b <= abs_val(a),
            abs_val(a) <= m * b,
    ;
}

/// Truncating division leaves a remainder smaller than the divisor in
/// magnitude: `a == b * tdiv(a, b) + rem` with `|rem| < b`.
pub proof fn lemma_tdiv_rem(a: int, b: int)
    requires
        b > 0,
    ensures
        abs_val(a - b * tdiv(a, b)) < b,
{
    assert(abs_val(a - b * tdiv(a, b)) < b) by (nonlinear_arith)
        requires
            b > 0,
    ;
}

/// `r` is the floor of the square root of `n`.
pub open spec fn is_sqrt_floor(n: int, r: int) -> bool {
    0 <= r && r * r <= n < (r + 1) * (r + 1)
}

/// The floor of the square root of a non-negative `n`.
pub open spec fn sqrt_floor(n: int) -> int {
    choose|r: int| is_sqrt_floor(n, r)
}

/// The floor of a square root is unique.
pub proof fn lemma_sqrt_floor_unique(n: int, a: int, b: int)
    requires
        is_sqrt_floor(n, a),
        is_sqrt_floor(n, b),
    ensures
        a == b,
{
    assert(a == b) by (nonlinear_arith)
        requires
            0 <= a && a * a <= n < (a + 1) * (a + 1),
            0 <= b && b * b <= n < (b + 1) * (b + 1),
    ;
}

/// Every non-negative integer has a square-root floor, so `sqrt_floor` indeed
/// denotes it.
pub proof fn lemma_sqrt_floor_exists(n: int)
    requires
        n >= 0,
    ensures
        is_sqrt_floor(n, sqrt_floor(n)),
    decreases n,
{
    if n == 0 {
        assert(is_sqrt_floor(0, 0));
    } else {
        lemma_sqrt_floor_exists(n - 1);
        let r = sqrt_floor(n - 1);
        if (r + 1) * (r + 1) <= n {
            assert(n == (r + 1) * (r + 1));
            assert((r + 1) * (r + 1) < (r + 2) * (r + 2)) by (nonlinear_arith)
                requires
                    r >= 0,
            ;
            assert(is_sqrt_floor(n, r + 1));
        } else {
            assert(is_sqrt_floor(n, r));
        }
    }
}

/// Floor of the square root, by binary search on the root.
pub fn isqrt_u64(n: u64) -> (r: u64)
    ensures
        is_sqrt_floor(n as int, r as int),
        r as int == sqrt_floor(n as int),
{
    let mut lo: u64 = 0;
    let mut hi: u64 = 0x1_0000_0000;
    while lo + 1 < hi
        invariant
            lo < hi <= 0x1_0000_0000,
            lo * lo <= n,
            (n as int) < (hi as int) * (hi as int),
        decreases hi - lo,
    {
        let mid = lo + (hi - lo) / 2;
        proof {
            assert(mid * mid <= 0xffff_ffff * 0xffff_ffff) by (nonlinear_arith)
                requires
                    mid <= 0xffff_ffffu64,
            ;
        }
        if mid * mid <= n {
            lo = mid;
        } else {
            hi = mid;
        }
    }
    proof {
        assert(is_sqrt_floor(n as int, lo as int));
        lemma_sqrt_floor_unique(n as int, lo as int, sqrt_floor(n as int));
    }
    lo
}

} // verus!
