//! Fixed-point trigonometry on microradian angles.
//!
//! The orbital formulas need the cosine of a true anomaly. Angles are held in
//! microradians; the cosine comes back scaled by `PRECISION`, so that
//! `PRECISION` stands for 1 and `-PRECISION` for -1. The value is computed by
//! reducing the angle to a quarter turn and evaluating a degree-six Taylor
//! polynomial there, entirely in integers, so it is exact at 0 and at half a
//! turn and reproducible everywhere.

use vstd::prelude::*;
use vstd::arithmetic::div_mod::{
    lemma_fundamental_div_mod, lemma_fundamental_div_mod_converse_mod, lemma_mod_bound,
    lemma_div_is_ordered, lemma_div_multiples_vanish, lemma_div_denominator,
};
use vstd::arithmetic::mul::{lemma_mul_inequality, lemma_mul_nonnegative};
use crate::{HALF_PI_INT, PI_INT, TAU_INT};

verus! {

/// Quarter-wave cosine: the integer Taylor polynomial
/// `1 - x^2/2 + x^4/24 - x^6/720` at scale `PRECISION`, with every division a
/// floor division, exactly as the executable code computes it.
pub open spec fn cos_quarter(x: int) -> int {
    let x2 = x * x / 1_000_000;
    1_000_000 - x2 / 2 + x2 * x2 / 24_000_000 - (x2 * x2 / 1_000_000) * x2 / 720_000_000
}

/// An angle reduced to `[0, TAU_INT)` microradians.
pub open spec fn norm_angle_spec(theta: int) -> int {
    theta % (TAU_INT as int)
}

/// Fixed-point cosine of a microradian angle, scaled by `PRECISION`: the
/// reduced angle is first folded at the half turn, which makes the function
/// exactly even, then mirrored at the quarter turn.
pub open spec fn cos_fixed_spec(theta: int) -> int {
    let r = norm_angle_spec(theta);
    let rr = if r > PI_INT {
        TAU_INT - r
    } else {
        r
    };
    if rr <= HALF_PI_INT {
        cos_quarter(rr)
    } else {
        -cos_quarter(PI_INT - rr)
    }
}

/// Fixed-point sine, scaled by `PRECISION`: the cosine a quarter turn behind.
pub open spec fn sin_fixed_spec(theta: int) -> int {
    cos_fixed_spec(norm_angle_spec(theta) - HALF_PI_INT)
}

/// Reduce a microradian angle to `[0, TAU_INT)`.
pub fn norm_angle(theta: i64) -> (r: i64)
    ensures
        r == norm_angle_spec(theta as int),
        0 <= r < TAU_INT,
{
    proof {
        lemma_mod_bound(theta as int, TAU_INT as int);
    }
    if theta >= 0 {
        let m: u64 = (theta as u64) % 6_283_185u64;
        m as i64
    } else {
        let u: u64 = (-(theta + 1)) as u64;
        let k: u64 = u % 6_283_185u64;
        proof {
            let t = TAU_INT as int;
            lemma_fundamental_div_mod(u as int, t);
            lemma_mod_bound(u as int, t);
            let q = u as int / t;
            assert(theta == t * (-q - 1) + (t - 1 - k)) by {
                assert(u == t * q + k);
                assert(theta == -(u as int) - 1);
                assert(t * (-q - 1) == -(t * q) - t) by (nonlinear_arith);
            };
            lemma_fundamental_div_mod_converse_mod(theta as int, t, -q - 1, t - 1 - k);
        }
        6_283_184i64 - (k as i64)
    }
}

/// The fixed-point cosine is exactly even and exactly periodic in one full
/// turn: it depends on an angle only through the turn it reduces to, and not
/// on the sign of the angle.
pub proof fn lemma_cos_even_periodic(theta: int)
    ensures
        cos_fixed_spec(-theta) == cos_fixed_spec(theta),
        cos_fixed_spec(theta + TAU_INT) == cos_fixed_spec(theta),
{
    let t = TAU_INT as int;
    vstd::arithmetic::div_mod::lemma_mod_add_multiples_vanish(theta, t);
    assert(norm_angle_spec(theta + t) == norm_angle_spec(theta));
    let r = theta % t;
    lemma_fundamental_div_mod(theta, t);
    lemma_mod_bound(theta, t);
    let q = theta / t;
    if r == 0 {
        assert(-theta == t * (-q) + 0) by {
            assert(t * (-q) == -(t * q)) by (nonlinear_arith);
        };
        lemma_fundamental_div_mod_converse_mod(-theta, t, -q, 0);
    } else {
        assert(-theta == t * (-q - 1) + (t - r)) by {
            assert(t * (-q - 1) == -(t * q) - t) by (nonlinear_arith);
        };
        lemma_fundamental_div_mod_converse_mod(-theta, t, -q - 1, t - r);
        // the half-turn fold sends r and t - r to the same angle
        if r > PI_INT {
            assert(norm_angle_spec(-theta) == t - r && t - r <= PI_INT);
        } else {
            assert(norm_angle_spec(-theta) == t - r && t - r > PI_INT);
        }
    }
}

/// Bounds of the quarter-wave polynomial: it never leaves the scaled
/// interval [-1, 1].
pub proof fn lemma_cos_quarter_bounds(x: int)
    requires
        0 <= x <= HALF_PI_INT,
    ensures
        -1_000_000 <= cos_quarter(x) <= 1_000_000,
{
    let x2 = x * x / 1_000_000;
    let x4 = x2 * x2 / 24_000_000;
    let w = x2 * x2 / 1_000_000;
    let x6 = w * x2 / 720_000_000;

    lemma_mul_nonnegative(x, x);
    lemma_mul_inequality(x, 1_570_796, x);
    lemma_mul_inequality(1_570_796, 1_570_796, x);
    assert(x * x <= 1_570_796 * 1_570_796) by (nonlinear_arith)
        requires
            0 <= x <= 1_570_796,
    ;
    assert(1_570_796 * 1_570_796 == 2_467_400_073_616int) by (nonlinear_arith);
    lemma_div_is_ordered(0, x * x, 1_000_000);
    lemma_div_is_ordered(x * x, 2_467_400_073_616, 1_000_000);
    assert(2_467_400_073_616int / 1_000_000 == 2_467_400) by (nonlinear_arith);
    assert(0 <= x2 <= 2_467_400);

    lemma_mul_nonnegative(x2, x2);
    lemma_div_is_ordered(0, x2 * x2, 24_000_000);
    lemma_div_is_ordered(0, x2 * x2, 1_000_000);
    lemma_mul_nonnegative(w, x2);
    lemma_div_is_ordered(0, w * x2, 720_000_000);
    assert(0 <= x4 && 0 <= w && 0 <= x6);

    // x4 <= x2 / 2, because x2 <= 12_000_000
    lemma_mul_inequality(x2, 12_000_000, x2);
    lemma_div_is_ordered(x2 * x2, 12_000_000 * x2, 24_000_000);
    lemma_div_denominator(12_000_000 * x2, 12_000_000, 2);
    lemma_div_multiples_vanish(x2, 12_000_000);
    assert(12_000_000 * x2 / 24_000_000 == x2 / 2);
    assert(x4 <= x2 / 2);

    // x6 <= 20_864
    assert(x2 * x2 <= 2_467_400 * 2_467_400) by (nonlinear_arith)
        requires
            0 <= x2 <= 2_467_400,
    ;
    assert(2_467_400 * 2_467_400 == 6_088_062_760_000int) by (nonlinear_arith);
    lemma_div_is_ordered(x2 * x2, 6_088_062_760_000, 1_000_000);
    assert(6_088_062_760_000int / 1_000_000 == 6_088_062) by (nonlinear_arith);
    assert(w * x2 <= 6_088_062 * 2_467_400) by (nonlinear_arith)
        requires
            0 <= w <= 6_088_062,
            0 <= x2 <= 2_467_400,
    ;
    assert(6_088_062 * 2_467_400int == 15_021_684_178_800int) by (nonlinear_arith);
    lemma_div_is_ordered(w * x2, 15_021_684_178_800, 720_000_000);
    assert(15_021_684_178_800int / 720_000_000 == 20_863) by (nonlinear_arith);
    assert(x6 <= 20_863);

    lemma_div_is_ordered(x * x, 2_467_400_073_616, 1_000_000);
    assert(x2 / 2 <= 1_233_700);
    assert(cos_quarter(x) == 1_000_000 - x2 / 2 + x4 - x6);
    assert(cos_quarter(x) <= 1_000_000);
    assert(cos_quarter(x) >= 1_000_000 - 1_233_700 + 0 - 20_863);
}

/// Quarter-wave cosine, executable: matches `cos_quarter` exactly.
fn cos_quarter_exec(x: i64) -> (r: i64)
    requires
        0 <= x <= HALF_PI_INT,
    ensures
        r == cos_quarter(x as int),
        -1_000_000 <= r <= 1_000_000,
{
    proof {
        lemma_cos_quarter_bounds(x as int);
        assert((x as u64) * (x as u64) <= 1_570_796 * 1_570_796) by (nonlinear_arith)
            requires
                0 <= x as u64 <= 1_570_796,
        ;
    }
    let xu: u64 = x as u64;
    let xx: u64 = xu * xu;
    let x2: u64 = xx / 1_000_000;
    proof {
        lemma_div_is_ordered(xx as int, 2_467_400_073_616, 1_000_000);
        assert(2_467_400_073_616int / 1_000_000 == 2_467_400) by (nonlinear_arith);
        assert(x2 * x2 <= 2_467_400 * 2_467_400) by (nonlinear_arith)
            requires
                0 <= x2 <= 2_467_400,
        ;
        assert(2_467_400 * 2_467_400 == 6_088_062_760_000int) by (nonlinear_arith);
    }
    let x2sq: u64 = x2 * x2;
    let x4: u64 = x2sq / 24_000_000;
    let w: u64 = x2sq / 1_000_000;
    proof {
        lemma_div_is_ordered(x2sq as int, 6_088_062_760_000, 1_000_000);
        assert(6_088_062_760_000int / 1_000_000 == 6_088_062) by (nonlinear_arith);
        assert(w * x2 <= 6_088_062 * 2_467_400) by (nonlinear_arith)
            requires
                0 <= w <= 6_088_062,
                0 <= x2 <= 2_467_400,
        ;
        assert(6_088_062 * 2_467_400int == 15_021_684_178_800int) by (nonlinear_arith);
    }
    let x6: u64 = (w * x2) / 720_000_000;
    1_000_000i64 - (x2 / 2) as i64 + x4 as i64 - x6 as i64
}

/// Fixed-point cosine of a microradian angle, scaled by `PRECISION`.
pub fn cos_fixed(theta: i64) -> (c: i64)
    ensures
        c == cos_fixed_spec(theta as int),
        -1_000_000 <= c <= 1_000_000,
{
    let r = norm_angle(theta);
    let rr = if r > PI_INT {
        TAU_INT - r
    } else {
        r
    };
    if rr <= HALF_PI_INT {
        cos_quarter_exec(rr)
    } else {
        -cos_quarter_exec(PI_INT - rr)
    }
}

/// Fixed-point sine of a microradian angle, scaled by `PRECISION`.
pub fn sin_fixed(theta: i64) -> (s: i64)
    ensures
        s == sin_fixed_spec(theta as int),
        -1_000_000 <= s <= 1_000_000,
{
    let r = norm_angle(theta);
    cos_fixed(r - HALF_PI_INT)
}

} // verus!
