//! Laws of the orbit model, proved once for every valid orbit: the distance
//! extremes land exactly on perihelion and aphelion, a circular orbit has one
//! speed everywhere, and speed never grows with distance from the primary.

use vstd::prelude::*;
use vstd::arithmetic::div_mod::{
    lemma_div_by_multiple, lemma_div_is_ordered, lemma_div_is_ordered_by_denominator,
    lemma_small_mod,
};
use vstd::arithmetic::mul::lemma_mul_inequality;
use crate::math::lemma_sqrt_floor_mono;
use crate::orbit::Orbit;
use crate::trig::{cos_fixed_spec, cos_quarter};
use crate::wide::wide_val;
use crate::PI_INT;

verus! {

/// The fixed-point cosine is exactly 1 at angle 0 and exactly -1 at half a
/// turn, with no rounding at all.
pub proof fn lemma_cos_extremes()
    ensures
        cos_fixed_spec(0) == 1_000_000,
        cos_fixed_spec(PI_INT as int) == -1_000_000,
{
    lemma_small_mod(0nat, 6_283_185nat);
    lemma_small_mod(3_141_592nat, 6_283_185nat);
    assert(cos_quarter(0) == 1_000_000) by {
        assert(0int * 0 == 0) by (nonlinear_arith);
        assert(0int / 1_000_000 == 0 && 0int / 2 == 0 && 0int / 24_000_000 == 0
            && 0int / 720_000_000 == 0) by (nonlinear_arith);
    };
}

/// The orbital distance at true anomaly 0 is exactly the perihelion, and at
/// half a turn exactly the aphelion: the fixed-point divisions cancel without
/// remainder.
pub proof fn lemma_distance_extremes(o: Orbit)
    requires
        o.valid(),
    ensures
        o.spec_orbital_distance(0) == o.spec_perihelion(),
        o.spec_orbital_distance(PI_INT as int) == o.spec_aphelion(),
{
    lemma_cos_extremes();
    let e = o.eccentricity as int;
    let d_peri = 1_000_000_000_000 + e * 1_000_000;
    let d_aph = 1_000_000_000_000 + e * (-1_000_000);
    assert(d_peri == 1_000_000 * (1_000_000 + e) && d_aph == 1_000_000 * (1_000_000 - e)
        && (1_000_000_000_000 - e * e) * 1_000_000 == (1_000_000 - e) * d_peri
        && (1_000_000_000_000 - e * e) * 1_000_000 == (1_000_000 + e) * d_aph
        && d_aph >= 1) by (nonlinear_arith)
        requires
            0 <= e < 1_000_000,
            d_peri == 1_000_000_000_000 + e * 1_000_000,
            d_aph == 1_000_000_000_000 + e * (-1_000_000),
    ;
    lemma_div_by_multiple(1_000_000 - e, d_peri);
    lemma_div_by_multiple(1_000_000 + e, d_aph);
    assert(o.spec_ratio(0) == 1_000_000 - e);
    assert(o.spec_ratio(PI_INT as int) == 1_000_000 + e);
}

/// On a circular orbit the speed does not depend on the true anomaly: with
/// eccentricity zero the conic ratio is exactly 1 everywhere.
pub proof fn lemma_circular_speed_constant(o: Orbit, mass: nat, theta1: int, theta2: int)
    requires
        o.valid(),
        o.eccentricity == 0,
    ensures
        o.spec_orbital_distance(theta1) == o.spec_orbital_distance(theta2),
        o.spec_orbital_speed(mass, theta1) == o.spec_orbital_speed(mass, theta2),
{
    lemma_circular_ratio(o, theta1);
    lemma_circular_ratio(o, theta2);
}

/// With eccentricity zero the scaled conic ratio is exactly `PRECISION` at
/// every angle.
proof fn lemma_circular_ratio(o: Orbit, theta: int)
    requires
        o.valid(),
        o.eccentricity == 0,
    ensures
        o.spec_ratio(theta) == 1_000_000,
{
    let c = cos_fixed_spec(theta);
    assert((1_000_000_000_000 - 0int * 0) * 1_000_000 / (1_000_000_000_000 + 0 * c)
        == 1_000_000) by (nonlinear_arith);
}

/// The orbital distance depends on the angle only through its cosine: it is
/// exactly even in the true anomaly and exactly periodic in one full turn,
/// as the polar equation of a conic demands.
pub proof fn lemma_distance_symmetric(o: Orbit, theta: int)
    requires
        o.valid(),
    ensures
        o.spec_orbital_distance(-theta) == o.spec_orbital_distance(theta),
        o.spec_orbital_distance(theta + crate::TAU_INT) == o.spec_orbital_distance(theta),
{
    crate::trig::lemma_cos_even_periodic(theta);
}

/// The prediction depends on the elapsed time only through its remainder
/// modulo the orbital period: the relation is exactly periodic, so the work
/// is bounded no matter how large the elapsed time grows.
pub proof fn lemma_predict_time_periodic(o: Orbit, mass: nat, current: int, time: nat)
    requires
        o.spec_orbital_period(mass) >= 1,
    ensures
        o.spec_predict_from(mass, current, time) == o.spec_predict_from(
            mass,
            current,
            time % (o.spec_orbital_period(mass) as nat),
        ),
{
    let p = o.spec_orbital_period(mass) as nat;
    vstd::arithmetic::div_mod::lemma_mod_bound(time as int, p as int);
    lemma_small_mod(time % p, p);
}

/// A continuation pair dated at or past the requested time is ignored: the
/// prediction restarts from the epoch angle, exactly as with no pair at all.
/// A stale pair can cost time, never correctness.
pub proof fn lemma_stale_continuation_ignored(
    o: Orbit,
    mass: nat,
    time: nat,
    last: Option<(crate::wide::UInt, i64)>,
)
    requires
        match last {
            Some(pair) => wide_val(pair.0) >= time,
            None => true,
        },
    ensures
        o.spec_predict(mass, time, last) == o.spec_predict_from(mass, o.start as int, time),
{
}

/// A continuation pair dated strictly before the requested time makes the
/// predictor integrate only the gap, starting from the pair's angle.
pub proof fn lemma_forward_continuation_dispatch(
    o: Orbit,
    mass: nat,
    time: nat,
    t0: crate::wide::UInt,
    a0: i64,
)
    requires
        wide_val(t0) < time,
    ensures
        o.spec_predict(mass, time, Some((t0, a0))) == o.spec_predict_from(
            mass,
            a0 as int,
            (time - wide_val(t0)) as nat,
        ),
{
}

/// Speed at perihelion is never below speed at aphelion; with the fixed-point
/// truncation the strict form of this comparison is a matter for tests, the
/// weak form holds for every valid orbit whose perihelion is at least one
/// kilometer.
pub proof fn lemma_speed_extremes(o: Orbit, mass: nat)
    requires
        o.valid(),
        o.spec_perihelion() >= 1,
    ensures
        o.spec_orbital_speed(mass, 0) >= o.spec_orbital_speed(mass, PI_INT as int),
{
    lemma_distance_extremes(o);
    let a = wide_val(o.semimajor) as int;
    let e = o.eccentricity as int;
    let d0 = o.spec_orbital_distance(0);
    let dpi = o.spec_orbital_distance(PI_INT as int);
    assert(a * (1_000_000 - e) <= a * (1_000_000 + e) && a * (1_000_000 + e) <= a * 2_000_000
        && a * 2_000_000 == (2 * a) * 1_000_000) by (nonlinear_arith)
        requires
            1 <= a,
            0 <= e < 1_000_000,
    ;
    lemma_div_is_ordered(a * (1_000_000 - e), a * (1_000_000 + e), 1_000_000);
    lemma_div_is_ordered(a * (1_000_000 + e), (2 * a) * 1_000_000, 1_000_000);
    lemma_div_by_multiple(2 * a, 1_000_000);
    assert(1 <= d0 <= dpi <= 2 * a);
    // 2/r falls as r grows; 1/a is shared; so the vis-viva term is ordered.
    lemma_div_is_ordered_by_denominator(2_000_000, d0, dpi);
    lemma_div_is_ordered_by_denominator(2_000_000, dpi, 2 * a);
    vstd::arithmetic::div_mod::lemma_div_denominator(2_000_000, 2, a);
    assert(2_000_000int / (2 * a) == 1_000_000int / a);
    let t0 = o.spec_speed_term(0);
    let tpi = o.spec_speed_term(PI_INT as int);
    assert(0 <= tpi <= t0);
    assert(0 <= 66_743 * mass * tpi <= 66_743 * mass * t0) by (nonlinear_arith)
        requires
            0 <= tpi <= t0,
            0 <= mass,
    ;
    lemma_sqrt_floor_mono((66_743 * mass * tpi) as nat, (66_743 * mass * t0) as nat);
    lemma_div_is_ordered(
        crate::math::sqrt_floor((66_743 * mass * tpi) as nat) as int,
        crate::math::sqrt_floor((66_743 * mass * t0) as nat) as int,
        1_000_000_000_000,
    );
}

/// With positive eccentricity the speed at perihelion strictly exceeds the
/// speed at aphelion wherever the whole-km/s output can tell the two apart:
/// the floor square roots of the two vis-viva radicands must differ by at
/// least the output scale of 10^12. The hypothesis is explicit because at
/// coarse magnitudes the truncation collapses both speeds to the same
/// integer — the Earth-scale scenario itself yields 0 km/s at both apsides.
pub proof fn lemma_speed_strictly_falls(o: Orbit, mass: nat)
    requires
        o.valid(),
        o.eccentricity >= 1,
        crate::math::sqrt_floor((66_743 * mass * o.spec_speed_term(0)) as nat)
            >= crate::math::sqrt_floor(
            (66_743 * mass * o.spec_speed_term(PI_INT as int)) as nat,
        ) + 1_000_000_000_000,
    ensures
        o.spec_orbital_speed(mass, 0) > o.spec_orbital_speed(mass, PI_INT as int),
{
    let s0 = crate::math::sqrt_floor((66_743 * mass * o.spec_speed_term(0)) as nat) as int;
    let spi = crate::math::sqrt_floor(
        (66_743 * mass * o.spec_speed_term(PI_INT as int)) as nat,
    ) as int;
    vstd::arithmetic::div_mod::lemma_hoist_over_denominator(spi, 1, 1_000_000_000_000nat);
    lemma_div_is_ordered(spi + 1_000_000_000_000, s0, 1_000_000_000_000);
    assert(s0 / 1_000_000_000_000 >= spi / 1_000_000_000_000 + 1);
}

} // verus!
