//! Fixed-point arithmetic for the motion engine.
//!
//! Positions are measured in position units (`UNITS_PER_PIXEL` of them per
//! screen pixel), timestamps and clock readings in microseconds, velocities
//! in position units per second. Division always rounds toward zero, so a
//! velocity and its mirror image decay symmetrically.

use vstd::prelude::*;
use vstd::arithmetic::div_mod::{
    lemma_div_is_ordered, lemma_div_multiples_vanish, lemma_div_nonincreasing,
    lemma_div_pos_is_pos, lemma_multiply_divide_le, lemma_multiply_divide_lt,
};
use vstd::arithmetic::mul::{
    lemma_mul_inequality, lemma_mul_is_commutative, lemma_mul_nonnegative,
    lemma_mul_strict_inequality, lemma_mul_unary_negation, lemma_mul_upper_bound,
};

verus! {

/// Microseconds in one second; also the fixed-point denominator used when
/// scaling a velocity by an elapsed time or by a decay factor.
pub const MICROS_PER_SECOND: i64 = 1_000_000;

/// Position units per screen pixel. The engine itself never converts; the
/// platform side multiplies pixel coordinates by this before calling in.
pub const UNITS_PER_PIXEL: i64 = 1_000;

/// Largest coordinate magnitude the engine accepts or produces, in position
/// units (a billion pixels either way — far beyond any screen).
pub const COORD_LIMIT: i64 = 1_000_000_000_000;

/// Largest timestamp or clock reading accepted, in microseconds
/// (roughly 31 years of uptime).
pub const TIME_LIMIT: i64 = 1_000_000_000_000_000;

/// Largest velocity magnitude the engine can ever produce: crossing the
/// whole coordinate range in the shortest measurable time (one microsecond).
pub const VEL_LIMIT: i64 = 2 * COORD_LIMIT * MICROS_PER_SECOND;

/// Decay rate of a coasting velocity: over an elapsed time `dt` seconds the
/// velocity is scaled by `1 - DECAY_RATE_PER_SECOND * dt` (floored at zero).
pub const DECAY_RATE_PER_SECOND: i64 = 5;

/// Speed below which a coasting cursor is considered at rest, in position
/// units per second (five pixels per second).
pub const STOP_SPEED: i64 = 5 * UNITS_PER_PIXEL;

/// Magnitude of an integer.
pub open spec fn abs_val(a: int) -> int {
    if a >= 0 {
        a
    } else {
        -a
    }
}

/// Division rounding toward zero, as the executable helpers compute it.
pub open spec fn sdiv(a: int, d: int) -> int
    recommends
        d >= 1,
{
    if a >= 0 {
        a / d
    } else {
        -((-a) / d)
    }
}

/// A coordinate forced into the range the engine works in. The cursor port
/// may clamp a requested position to the screen anyway, so the engine clamps
/// to its own range rather than demanding room for an unbounded step.
pub open spec fn clamp_coord(a: int) -> int {
    if a < -(COORD_LIMIT as int) {
        -(COORD_LIMIT as int)
    } else if a > COORD_LIMIT as int {
        COORD_LIMIT as int
    } else {
        a
    }
}

/// Division toward zero never grows a magnitude and never flips a sign.
pub proof fn lemma_sdiv_abs_le(a: int, d: int)
    requires
        d >= 1,
    ensures
        abs_val(sdiv(a, d)) <= abs_val(a),
        a >= 0 ==> sdiv(a, d) >= 0,
        a <= 0 ==> sdiv(a, d) <= 0,
{
    if a >= 0 {
        lemma_div_nonincreasing(a, d);
        lemma_div_pos_is_pos(a, d);
    } else {
        lemma_div_nonincreasing(-a, d);
        lemma_div_pos_is_pos(-a, d);
    }
}

/// Scaling by `f / d` with `0 <= f <= d` never grows a magnitude, and with
/// `f < d` it strictly shrinks a nonzero value.
pub proof fn lemma_sdiv_scale(a: int, f: int, d: int)
    requires
        d >= 1,
        0 <= f <= d,
    ensures
        abs_val(sdiv(a * f, d)) <= abs_val(a),
        a != 0 && f < d ==> abs_val(sdiv(a * f, d)) < abs_val(a),
{
    if a >= 0 {
        lemma_mul_nonnegative(a, f);
        lemma_mul_is_commutative(a, f);
        lemma_mul_inequality(f, d, a);
        lemma_mul_is_commutative(d, a);
        lemma_multiply_divide_le(a * f, d, a);
        if a != 0 && f < d {
            lemma_mul_strict_inequality(f, d, a);
            lemma_multiply_divide_lt(a * f, d, a);
        }
        lemma_div_pos_is_pos(a * f, d);
    } else {
        let m = -a;
        lemma_mul_unary_negation(a, f);
        lemma_mul_nonnegative(m, f);
        if m * f == 0 {
            assert(a * f == 0);
            assert(sdiv(a * f, d) == 0int / d);
            assert(0int / d == 0) by {
                lemma_div_pos_is_pos(0, d);
                lemma_div_nonincreasing(0, d);
            }
        } else {
            assert(a * f < 0);
            assert(-(a * f) == m * f);
            lemma_mul_is_commutative(m, f);
            lemma_mul_inequality(f, d, m);
            lemma_mul_is_commutative(d, m);
            lemma_multiply_divide_le(m * f, d, m);
            if f < d {
                lemma_mul_strict_inequality(f, d, m);
                lemma_multiply_divide_lt(m * f, d, m);
            }
            lemma_div_pos_is_pos(m * f, d);
        }
    }
}

/// Scaling by `d / d` changes nothing: `sdiv(a * d, d) == a`.
pub proof fn lemma_sdiv_exact(a: int, d: int)
    requires
        d >= 1,
    ensures
        sdiv(a * d, d) == a,
{
    if a >= 0 {
        lemma_mul_nonnegative(a, d);
        lemma_mul_is_commutative(a, d);
        lemma_div_multiples_vanish(a, d);
    } else {
        lemma_mul_unary_negation(a, d);
        lemma_mul_nonnegative(-a, d);
        lemma_mul_is_commutative(-a, d);
        lemma_div_multiples_vanish(-a, d);
        assert((-a) * d > 0) by {
            lemma_mul_strict_inequality(0, -a, d);
        }
        assert(a * d < 0);
    }
}

/// Squaring respects magnitudes: a value no larger in magnitude has a
/// square no larger.
pub proof fn lemma_square_le_abs(a: int, b: int)
    requires
        abs_val(a) <= abs_val(b),
    ensures
        a * a <= b * b,
{
    let aa = abs_val(a);
    let bb = abs_val(b);
    assert(aa * aa <= bb * bb) by (nonlinear_arith)
        requires
            0 <= aa <= bb,
    ;
    assert(aa * aa == a * a) by (nonlinear_arith)
        requires
            aa == a || aa == -a,
    ;
    assert(bb * bb == b * b) by (nonlinear_arith)
        requires
            bb == b || bb == -b,
    ;
}

/// Squaring respects magnitudes strictly: a value strictly smaller in
/// magnitude has a strictly smaller square.
pub proof fn lemma_square_lt_abs(a: int, b: int)
    requires
        abs_val(a) < abs_val(b),
    ensures
        a * a < b * b,
{
    let aa = abs_val(a);
    let bb = abs_val(b);
    assert(aa * aa < bb * bb) by (nonlinear_arith)
        requires
            0 <= aa < bb,
    ;
    assert(aa * aa == a * a) by (nonlinear_arith)
        requires
            aa == a || aa == -a,
    ;
    assert(bb * bb == b * b) by (nonlinear_arith)
        requires
            bb == b || bb == -b,
    ;
}

/// Quotient of two plain machine integers, rounded toward zero.
pub fn div_to_zero(n: i64, d: i64) -> (q: i64)
    requires
        d >= 1,
        n > i64::MIN,
    ensures
        q == sdiv(n as int, d as int),
        n >= 0 ==> 0 <= q <= n,
        n < 0 ==> n <= q <= 0,
{
    if n >= 0 {
        let qq: u64 = (n as u64) / (d as u64);
        proof {
            lemma_div_nonincreasing(n as int, d as int);
            lemma_div_pos_is_pos(n as int, d as int);
        }
        qq as i64
    } else {
        let m: i64 = -n;
        let qq: u64 = (m as u64) / (d as u64);
        proof {
            lemma_div_nonincreasing(m as int, d as int);
            lemma_div_pos_is_pos(m as int, d as int);
        }
        -(qq as i64)
    }
}

/// The coordinate reached from `x` after coasting for `dt` microseconds at
/// `v` position units per second, clamped into the engine's range.
pub fn advance_coord(x: i64, v: i64, dt: i64) -> (r: i64)
    requires
        -COORD_LIMIT <= x <= COORD_LIMIT,
        -VEL_LIMIT <= v <= VEL_LIMIT,
        0 <= dt <= TIME_LIMIT,
    ensures
        r == clamp_coord(x + sdiv(v as int * dt as int, MICROS_PER_SECOND as int)),
        -COORD_LIMIT <= r <= COORD_LIMIT,
{
    let neg: bool = v < 0;
    let vm: u128 = if v >= 0 {
        v as u128
    } else {
        (-v) as u128
    };
    proof {
        lemma_mul_upper_bound(
            vm as int,
            2_000_000_000_000_000_000,
            dt as int,
            1_000_000_000_000_000,
        );
    }
    let prod: u128 = vm * (dt as u128);
    let mag: u128 = prod / 1_000_000u128;
    proof {
        lemma_div_nonincreasing(prod as int, 1_000_000);
        lemma_div_pos_is_pos(prod as int, 1_000_000);
    }
    let delta: i128 = if neg {
        -(mag as i128)
    } else {
        mag as i128
    };
    proof {
        let a = v as int * dt as int;
        if v >= 0 {
            lemma_mul_nonnegative(v as int, dt as int);
            assert(sdiv(a, MICROS_PER_SECOND as int) == delta as int);
        } else {
            lemma_mul_unary_negation(v as int, dt as int);
            lemma_mul_nonnegative(-(v as int), dt as int);
            assert(prod as int == -a);
            if a == 0 {
                assert(sdiv(a, MICROS_PER_SECOND as int) == 0int / 1_000_000) by {
                    lemma_div_pos_is_pos(0, 1_000_000);
                }
                assert(0int / 1_000_000 == 0) by {
                    lemma_div_pos_is_pos(0, 1_000_000);
                    lemma_div_nonincreasing(0, 1_000_000);
                }
            } else {
                assert(a < 0);
                assert(sdiv(a, MICROS_PER_SECOND as int) == -((-a) / 1_000_000));
            }
        }
    }
    let pos: i128 = (x as i128) + delta;
    let lim: i128 = COORD_LIMIT as i128;
    if pos < -lim {
        -COORD_LIMIT
    } else if pos > lim {
        COORD_LIMIT
    } else {
        pos as i64
    }
}

/// A velocity component scaled by `factor / MICROS_PER_SECOND`, rounded
/// toward zero. The result never exceeds the input in magnitude.
pub fn scale_velocity(v: i64, factor: i64) -> (r: i64)
    requires
        -VEL_LIMIT <= v <= VEL_LIMIT,
        0 <= factor <= MICROS_PER_SECOND,
    ensures
        r == sdiv(v as int * factor as int, MICROS_PER_SECOND as int),
        abs_val(r as int) <= abs_val(v as int),
        -VEL_LIMIT <= r <= VEL_LIMIT,
{
    let neg: bool = v < 0;
    let vm: u128 = if v >= 0 {
        v as u128
    } else {
        (-v) as u128
    };
    proof {
        lemma_mul_upper_bound(vm as int, 2_000_000_000_000_000_000, factor as int, 1_000_000);
    }
    let prod: u128 = vm * (factor as u128);
    let mag: u128 = prod / 1_000_000u128;
    proof {
        lemma_sdiv_scale(vm as int, factor as int, 1_000_000);
        lemma_mul_nonnegative(vm as int, factor as int);
        assert(sdiv(vm as int * factor as int, 1_000_000) == mag as int);
        let a = v as int * factor as int;
        if v >= 0 {
            assert(sdiv(a, MICROS_PER_SECOND as int) == mag as int);
        } else {
            lemma_mul_unary_negation(v as int, factor as int);
            assert(prod as int == -a);
            lemma_sdiv_scale(v as int, factor as int, 1_000_000);
            if a == 0 {
                assert(mag as int == 0int / 1_000_000);
                assert(0int / 1_000_000 == 0) by {
                    lemma_div_pos_is_pos(0, 1_000_000);
                    lemma_div_nonincreasing(0, 1_000_000);
                }
            } else {
                assert(a < 0);
                assert(sdiv(a, MICROS_PER_SECOND as int) == -((-a) / 1_000_000));
            }
        }
    }
    if neg {
        -(mag as i64)
    } else {
        mag as i64
    }
}

} // verus!
