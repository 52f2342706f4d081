//! Fixed-point geometry: displacement over a frame delta, saturation to the
//! representable range, horizontal wrapping, and axis-aligned box overlap.

use vstd::prelude::*;
use vstd::arithmetic::div_mod::{lemma_div_is_ordered, lemma_div_pos_is_pos};
use crate::tuning::{MICROS_PER_SEC, VEL_LIMIT, DT_LIMIT, DISPLACEMENT_LIMIT, POS_LIMIT};

verus! {

/// Division by `MICROS_PER_SEC` truncated toward zero, as machine division is.
pub open spec fn tdiv_micros(a: int) -> int {
    if a >= 0 {
        a / (MICROS_PER_SEC as int)
    } else {
        -((-a) / (MICROS_PER_SEC as int))
    }
}

/// How far a body with velocity `v` travels in `dt` microseconds.
/// A degenerate (zero or negative) delta moves nothing.
pub open spec fn displacement(v: int, dt: int) -> int {
    if dt > 0 {
        tdiv_micros(v * dt)
    } else {
        0
    }
}

/// `v` saturated into `[lo, hi]`.
pub open spec fn clip(lo: int, hi: int, v: int) -> int {
    if v < lo {
        lo
    } else if v > hi {
        hi
    } else {
        v
    }
}

/// Horizontal wrap across the screen edges: a coordinate beyond one edge
/// re-enters at the other; anything in between is untouched.
pub open spec fn wrap_coord(half: int, x: int) -> int {
    if x > half {
        -half
    } else if x < -half {
        half
    } else {
        x
    }
}

/// Strict axis-aligned overlap of two boxes given by center and half-extents.
pub open spec fn boxes_overlap(
    x_a: int, y_a: int, hx_a: int, hy_a: int,
    x_b: int, y_b: int, hx_b: int, hy_b: int,
) -> bool {
    &&& x_a - hx_a < x_b + hx_b
    &&& x_a + hx_a > x_b - hx_b
    &&& y_a - hy_a < y_b + hy_b
    &&& y_a + hy_a > y_b - hy_b
}

/// A displacement computed from a bounded velocity and a bounded delta is itself bounded.
pub proof fn lemma_displacement_bound(v: int, dt: int)
    requires
        -VEL_LIMIT <= v <= VEL_LIMIT,
        dt <= DT_LIMIT,
    ensures
        -DISPLACEMENT_LIMIT <= displacement(v, dt) <= DISPLACEMENT_LIMIT,
{
    if dt > 0 {
        assert(-(VEL_LIMIT * DT_LIMIT) <= v * dt && v * dt <= VEL_LIMIT * DT_LIMIT)
            by (nonlinear_arith)
            requires
                -VEL_LIMIT <= v <= VEL_LIMIT,
                0 < dt <= DT_LIMIT,
        ;
        let p: int = v * dt;
        if p >= 0 {
            lemma_div_pos_is_pos(p, MICROS_PER_SEC as int);
            lemma_div_is_ordered(p, VEL_LIMIT * DT_LIMIT, MICROS_PER_SEC as int);
        } else {
            lemma_div_pos_is_pos(-p, MICROS_PER_SEC as int);
            lemma_div_is_ordered(-p, VEL_LIMIT * DT_LIMIT, MICROS_PER_SEC as int);
        }
    }
}

/// A wrapped coordinate lies within the screen.
pub proof fn lemma_wrap_in_range(half: int, x: int)
    requires
        0 <= half,
    ensures
        -half <= wrap_coord(half, x) <= half,
{
}

/// Wrapping a second time changes nothing.
pub proof fn lemma_wrap_idempotent(half: int, x: int)
    requires
        0 <= half,
    ensures
        wrap_coord(half, wrap_coord(half, x)) == wrap_coord(half, x),
{
}

/// `displacement(v, dt)`, computed in machine integers.
pub fn scale_by_dt(v: i64, dt: i64) -> (r: i64)
    requires
        -VEL_LIMIT <= v <= VEL_LIMIT,
        dt <= DT_LIMIT,
    ensures
        r == displacement(v as int, dt as int),
        -DISPLACEMENT_LIMIT <= r <= DISPLACEMENT_LIMIT,
{
    proof {
        lemma_displacement_bound(v as int, dt as int);
    }
    if dt <= 0 {
        return 0;
    }
    if v >= 0 {
        proof {
            assert(0 <= v * dt <= VEL_LIMIT * DT_LIMIT) by (nonlinear_arith)
                requires
                    0 <= v <= VEL_LIMIT,
                    0 < dt <= DT_LIMIT,
            ;
        }
        let p: u64 = (v as u64) * (dt as u64);
        let q: u64 = p / 1_000_000;
        proof {
            assert(p == v * dt);
            assert(q == tdiv_micros(v * dt));
        }
        q as i64
    } else {
        let m: i64 = -v;
        proof {
            assert(m * dt == -(v * dt) && 0 <= m * dt <= VEL_LIMIT * DT_LIMIT) by (nonlinear_arith)
                requires
                    0 <= m <= VEL_LIMIT,
                    m == -v,
                    0 < dt <= DT_LIMIT,
            ;
        }
        let p: u64 = (m as u64) * (dt as u64);
        let q: u64 = p / 1_000_000;
        proof {
            assert(p == m * dt);
            assert(q == (-(v * dt)) / (MICROS_PER_SEC as int));
            assert(q == -tdiv_micros(v * dt));
        }
        -(q as i64)
    }
}

/// `clip(lo, hi, v)`, computed in machine integers.
pub fn clip_i64(lo: i64, hi: i64, v: i64) -> (r: i64)
    requires
        lo <= hi,
    ensures
        r == clip(lo as int, hi as int, v as int),
{
    if v < lo {
        lo
    } else if v > hi {
        hi
    } else {
        v
    }
}

/// Strict AABB overlap test on centers and half-extents.
pub fn is_colliding(
    x_a: i64, y_a: i64, hx_a: i64, hy_a: i64,
    x_b: i64, y_b: i64, hx_b: i64, hy_b: i64,
) -> (r: bool)
    requires
        -POS_LIMIT <= x_a <= POS_LIMIT,
        -POS_LIMIT <= y_a <= POS_LIMIT,
        -POS_LIMIT <= x_b <= POS_LIMIT,
        -POS_LIMIT <= y_b <= POS_LIMIT,
        0 <= hx_a <= POS_LIMIT,
        0 <= hy_a <= POS_LIMIT,
        0 <= hx_b <= POS_LIMIT,
        0 <= hy_b <= POS_LIMIT,
    ensures
        r == boxes_overlap(
            x_a as int, y_a as int, hx_a as int, hy_a as int,
            x_b as int, y_b as int, hx_b as int, hy_b as int,
        ),
{
    (x_a - hx_a < x_b + hx_b)
        && (x_a + hx_a > x_b - hx_b)
        && (y_a - hy_a < y_b + hy_b)
        && (y_a + hy_a > y_b - hy_b)
}

} // verus!
