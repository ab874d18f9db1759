//! The orbit model: an immutable elliptical orbit and its closed-form
//! queries, plus the position predictor.
//!
//! Units, fixed throughout the library:
//! - lengths in kilometers, as wide unsigned integers;
//! - masses in units of 10^6 kilograms, as wide unsigned integers;
//! - times in whole seconds, as wide unsigned integers;
//! - angles in microradians (`i64`), measured from perihelion;
//! - eccentricity scaled by `PRECISION`, so `17_000` stands for 0.017.

use vstd::prelude::*;
use vstd::arithmetic::div_mod::{
    lemma_div_is_ordered, lemma_div_is_ordered_by_denominator, lemma_div_by_multiple,
    lemma_div_denominator,
};
use vstd::arithmetic::mul::lemma_mul_inequality;
use crate::math::{sqrt_floor, lemma_sqrt_floor_unique};
use crate::trig::{cos_fixed, cos_fixed_spec, norm_angle, norm_angle_spec, sin_fixed,
    sin_fixed_spec};
use crate::wide::{UInt, wide_val, wide_limit, wide_from_u128, wide_to_u128, wide_mul, wide_div,
    wide_rem, wide_sub, wide_sqrt, wide_lt};
use crate::{GRAV_INT, PRECISION, TAU_INT};

verus! {

/// Direction of the orbit's second focus from the primary body, with each
/// component scaled by `PRECISION`. By convention it is a unit vector, or the
/// zero vector for a perfectly centered orbit; no formula of this library
/// reads it, it is carried for the host simulation.
#[derive(Clone, Copy, Debug, PartialEq, Eq, Structural)]
pub struct Dir3 {
    pub x: i64,
    pub y: i64,
    pub z: i64,
}

/// An immutable elliptical orbit around a primary body at one focus.
#[derive(Clone, Copy)]
pub struct Orbit {
    /// Direction of the second focus from the primary, unit or zero.
    pub focus: Dir3,
    /// True anomaly at simulation epoch (time = 0), in microradians.
    pub start: i64,
    /// Semimajor axis in kilometers.
    pub semimajor: UInt,
    /// Eccentricity scaled by `PRECISION`; must be below `PRECISION`.
    pub eccentricity: u64,
}

impl Orbit {
    /// The shape invariants the numeric contracts assume: an ellipse (not a
    /// parabola or hyperbola) with a positive semimajor axis.
    pub open spec fn valid(self) -> bool {
        &&& self.eccentricity < 1_000_000
        &&& wide_val(self.semimajor) >= 1
    }

    /// The semimajor axis times the scaled ratio fits the wide integer.
    pub open spec fn distance_fits(self) -> bool {
        wide_val(self.semimajor) * 2_000_000 <= wide_limit()
    }

    /// Maximum distance from the primary: `semimajor * (1 + e)`.
    pub open spec fn spec_aphelion(self) -> int {
        wide_val(self.semimajor) * (1_000_000 + self.eccentricity) / 1_000_000
    }

    /// Minimum distance from the primary: `semimajor * (1 - e)`.
    pub open spec fn spec_perihelion(self) -> int {
        wide_val(self.semimajor) * (1_000_000 - self.eccentricity) / 1_000_000
    }

    /// The conic-section ratio `(1 - e^2) / (1 + e cos theta)`, scaled by
    /// `PRECISION`, computed in fixed point exactly as the executable code
    /// does.
    pub open spec fn spec_ratio(self, theta: int) -> int {
        let e = self.eccentricity as int;
        (1_000_000_000_000 - e * e) * 1_000_000 / (1_000_000_000_000 + e * cos_fixed_spec(theta))
    }

    /// Radial distance from the primary at true anomaly `theta`, in
    /// kilometers: `semimajor * (1 - e^2) / (1 + e cos theta)`.
    pub open spec fn spec_orbital_distance(self, theta: int) -> int {
        wide_val(self.semimajor) * self.spec_ratio(theta) / 1_000_000
    }

    /// Earth-like preset: semimajor axis 149,598,000 km, eccentricity 0.017.
    pub fn earth() -> (o: Orbit)
        ensures
            o.valid(),
            o.focus == (Dir3 { x: 1_000_000, y: 0, z: 0 }),
            o.start == 0,
            wide_val(o.semimajor) == 149_598_000,
            o.eccentricity == 17_000,
    {
        Orbit {
            focus: Dir3 { x: 1_000_000, y: 0, z: 0 },
            start: 0,
            semimajor: wide_from_u128(149_598_000),
            eccentricity: 17_000,
        }
    }

    /// Moon-like preset: semimajor axis 384,400 km, eccentricity 0.0549.
    pub fn moon() -> (o: Orbit)
        ensures
            o.valid(),
            o.focus == (Dir3 { x: 1_000_000, y: 0, z: 0 }),
            o.start == 0,
            wide_val(o.semimajor) == 384_400,
            o.eccentricity == 54_900,
    {
        Orbit {
            focus: Dir3 { x: 1_000_000, y: 0, z: 0 },
            start: 0,
            semimajor: wide_from_u128(384_400),
            eccentricity: 54_900,
        }
    }

    /// A perfectly circular orbit: eccentricity zero.
    pub fn circular(semimajor: UInt, focus: Dir3, start: i64) -> (o: Orbit)
        ensures
            o.focus == focus,
            o.start == start,
            o.semimajor == semimajor,
            o.eccentricity == 0,
    {
        Orbit { focus, start, semimajor, eccentricity: 0 }
    }

    /// Maximum distance from the primary body, in kilometers.
    pub fn aphelion(&self) -> (r: UInt)
        requires
            self.valid(),
            self.distance_fits(),
        ensures
            wide_val(r) == self.spec_aphelion(),
    {
        proof {
            let a = wide_val(self.semimajor) as int;
            lemma_mul_inequality(1_000_000 + self.eccentricity, 2_000_000, a);
            assert(a * (1_000_000 + self.eccentricity) == (1_000_000 + self.eccentricity) * a)
                by (nonlinear_arith);
            assert(a * 2_000_000 == 2_000_000 * a) by (nonlinear_arith);
        }
        let f = wide_from_u128((1_000_000 + self.eccentricity) as u128);
        let prod = wide_mul(&self.semimajor, &f);
        wide_div(&prod, &wide_from_u128(PRECISION as u128))
    }

    /// Minimum distance from the primary body, in kilometers.
    pub fn perihelion(&self) -> (r: UInt)
        requires
            self.valid(),
            self.distance_fits(),
        ensures
            wide_val(r) == self.spec_perihelion(),
    {
        proof {
            let a = wide_val(self.semimajor) as int;
            lemma_mul_inequality(1_000_000 - self.eccentricity, 2_000_000, a);
            assert(a * (1_000_000 - self.eccentricity) == (1_000_000 - self.eccentricity) * a)
                by (nonlinear_arith);
            assert(a * 2_000_000 == 2_000_000 * a) by (nonlinear_arith);
        }
        let f = wide_from_u128((1_000_000 - self.eccentricity) as u128);
        let prod = wide_mul(&self.semimajor, &f);
        wide_div(&prod, &wide_from_u128(PRECISION as u128))
    }

    /// The scaled conic ratio at `theta`, bounded by `PRECISION + e`.
    fn ratio_at(&self, theta: i64) -> (q: u64)
        requires
            self.valid(),
        ensures
            q == self.spec_ratio(theta as int),
            q <= 1_000_000 + self.eccentricity,
    {
        let c = cos_fixed(theta);
        let e = self.eccentricity;
        proof {
            assert(-999_999_000_000 <= (e as int) * (c as int)
                && (e as int) * (c as int) <= 1_000_000_000_000) by (nonlinear_arith)
                requires
                    0 <= e < 1_000_000,
                    -1_000_000 <= c <= 1_000_000,
            ;
        }
        let ec: i128 = (e as i128) * (c as i128);
        let denom: i128 = 1_000_000_000_000i128 + ec;
        proof {
            assert((e as int) * (e as int) < 1_000_000_000_000) by (nonlinear_arith)
                requires
                    0 <= e < 1_000_000,
            ;
        }
        let num: u128 = (1_000_000_000_000u128 - (e as u128) * (e as u128)) * 1_000_000;
        let q: u128 = num / (denom as u128);
        proof {
            let ei = e as int;
            let ni = num as int;
            let di = denom as int;
            let lo = 1_000_000 * (1_000_000 - ei);
            assert(ni == (1_000_000 + ei) * lo) by (nonlinear_arith)
                requires
                    ni == (1_000_000_000_000 - ei * ei) * 1_000_000,
                    lo == 1_000_000 * (1_000_000 - ei),
            ;
            assert(di >= lo) by (nonlinear_arith)
                requires
                    di == 1_000_000_000_000 + ei * (cos_fixed_spec(theta as int)),
                    -1_000_000 <= cos_fixed_spec(theta as int),
                    0 <= ei < 1_000_000,
                    lo == 1_000_000 * (1_000_000 - ei),
            ;
            assert(lo >= 1_000_000) by (nonlinear_arith)
                requires
                    lo == 1_000_000 * (1_000_000 - ei),
                    0 <= ei < 1_000_000,
            ;
            lemma_div_is_ordered_by_denominator(ni, lo, di);
            lemma_div_by_multiple(1_000_000 + ei, lo);
            assert(ni / di <= 1_000_000 + ei);
        }
        q as u64
    }

    /// Radial distance from the primary at true anomaly `theta` microradians,
    /// in kilometers.
    pub fn orbital_distance(&self, theta: i64) -> (r: UInt)
        requires
            self.valid(),
            self.distance_fits(),
        ensures
            wide_val(r) == self.spec_orbital_distance(theta as int),
            wide_val(r) <= 2 * wide_val(self.semimajor),
    {
        let q = self.ratio_at(theta);
        proof {
            let a = wide_val(self.semimajor) as int;
            let qi = q as int;
            lemma_mul_inequality(qi, 2_000_000, a);
            assert(a * qi == qi * a) by (nonlinear_arith);
            assert(a * 2_000_000 == 2_000_000 * a) by (nonlinear_arith);
            // r = a * q / P <= a * 2P / P = 2a
            lemma_mul_inequality(qi, 2_000_000, a);
            assert(a * qi <= a * 2_000_000) by (nonlinear_arith)
                requires
                    0 <= qi <= 2_000_000,
                    1 <= a,
            ;
            lemma_div_is_ordered(a * qi, a * 2_000_000, 1_000_000);
            assert(a * 2_000_000 == (2 * a) * 1_000_000) by (nonlinear_arith);
            lemma_div_by_multiple(2 * a, 1_000_000);
            assert(a * 2_000_000 / 1_000_000 == 2 * a);
        }
        let qw = wide_from_u128(q as u128);
        let prod = wide_mul(&self.semimajor, &qw);
        wide_div(&prod, &wide_from_u128(PRECISION as u128))
    }

    /// The intermediate products of Kepler's third law fit the wide integer.
    pub open spec fn period_fits(self, mass: nat) -> bool {
        let a = wide_val(self.semimajor);
        &&& 66_743 * mass < wide_limit()
        &&& a * a * a * 1_000_000_000_000_000_000 < wide_limit()
    }

    /// Orbital period in seconds for a combined system mass at the focus
    /// (mass in 10^6 kg): `tau * sqrt(semimajor^3 / (G * mass))`, computed in
    /// fixed point.
    pub open spec fn spec_orbital_period(self, mass: nat) -> int {
        let a = wide_val(self.semimajor);
        6_283_185 * sqrt_floor((a * a * a * 1_000_000_000_000_000_000 / (66_743 * mass)) as nat)
            as int / 1_000_000
    }

    /// Orbital period in seconds; mass of the primary in 10^6 kilograms.
    pub fn orbital_period(&self, mass: &UInt) -> (p: UInt)
        requires
            self.valid(),
            wide_val(*mass) >= 1,
            self.period_fits(wide_val(*mass)),
        ensures
            wide_val(p) == self.spec_orbital_period(wide_val(*mass)),
    {
        let ghost lim = wide_limit();
        let ghost a = wide_val(self.semimajor) as int;
        let ghost m = wide_val(*mass) as int;
        proof {
            assert(a * a < lim && (a * a) * a < lim && 1 <= 66_743 * m) by (nonlinear_arith)
                requires
                    1 <= a,
                    1 <= m,
                    a * a * a * 1_000_000_000_000_000_000 < lim,
            ;
        }
        let gm = wide_mul(&wide_from_u128(GRAV_INT as u128), mass);
        let aa = wide_mul(&self.semimajor, &self.semimajor);
        let a3 = wide_mul(&aa, &self.semimajor);
        let a3p3 = wide_mul(&a3, &wide_from_u128(1_000_000_000_000_000_000));
        let inner = wide_div(&a3p3, &gm);
        let s = wide_sqrt(&inner);
        proof {
            let sv = wide_val(s);
            let iv = wide_val(inner);
            lemma_sqrt_floor_unique(iv, sv);
            assert(6_283_185 * sv < lim) by (nonlinear_arith)
                requires
                    sv * sv <= iv,
                    iv < lim,
                    lim == 0x10000000000000000000000000000000000000000000000000000000000000000int,
            ;
        }
        let ts = wide_mul(&wide_from_u128(6_283_185), &s);
        wide_div(&ts, &wide_from_u128(PRECISION as u128))
    }

    /// The vis-viva product fits the wide integer.
    pub open spec fn speed_fits(self, mass: nat) -> bool {
        66_743 * mass * 2_000_000 < wide_limit()
    }

    /// The scaled vis-viva term `2/r - 1/a` at `theta`, at scale
    /// `PRECISION` per kilometer.
    pub open spec fn spec_speed_term(self, theta: int) -> int {
        2_000_000int / self.spec_orbital_distance(theta) - 1_000_000int / wide_val(
            self.semimajor,
        ) as int
    }

    /// Orbital speed in km/s at true anomaly `theta`:
    /// `sqrt(G * mass * (2/r - 1/a))`, computed in fixed point.
    pub open spec fn spec_orbital_speed(self, mass: nat, theta: int) -> int {
        sqrt_floor((66_743 * mass * self.spec_speed_term(theta)) as nat) as int
            / 1_000_000_000_000
    }

    /// Speed of the orbiting body in km/s; mass of the primary in 10^6
    /// kilograms, angle in microradians from perihelion.
    pub fn orbital_speed(&self, mass: &UInt, theta: i64) -> (v: UInt)
        requires
            self.valid(),
            self.distance_fits(),
            self.speed_fits(wide_val(*mass)),
            self.spec_orbital_distance(theta as int) >= 1,
        ensures
            wide_val(v) == self.spec_orbital_speed(wide_val(*mass), theta as int),
    {
        let ghost lim = wide_limit();
        let ghost a = wide_val(self.semimajor) as int;
        let ghost m = wide_val(*mass) as int;
        let d = self.orbital_distance(theta);
        let ghost dv = wide_val(d) as int;
        let q1 = wide_div(&wide_from_u128(2_000_000), &d);
        let q2 = wide_div(&wide_from_u128(1_000_000), &self.semimajor);
        proof {
            // 2_000_000 / d >= 1_000_000 / a, since d <= 2a
            lemma_div_is_ordered_by_denominator(2_000_000, dv, 2 * a);
            lemma_div_denominator(2_000_000, 2, a);
            assert(2_000_000int / (2 * a) == 1_000_000int / a);
            // and 2_000_000 / d <= 2_000_000
            lemma_div_is_ordered_by_denominator(2_000_000, 1, dv);
        }
        let term = wide_sub(&q1, &q2);
        proof {
            let tv = wide_val(term) as int;
            assert(66_743 * m < lim && 66_743 * m * tv < lim) by (nonlinear_arith)
                requires
                    66_743 * m * 2_000_000 < lim,
                    0 <= m,
                    0 <= tv <= 2_000_000,
            ;
        }
        let gm = wide_mul(&wide_from_u128(GRAV_INT as u128), mass);
        let inner = wide_mul(&gm, &term);
        let s = wide_sqrt(&inner);
        proof {
            lemma_sqrt_floor_unique(wide_val(inner), wide_val(s));
        }
        wide_div(&s, &wide_from_u128(1_000_000_000_000))
    }

    /// The angular-momentum radicand fits the wide integer.
    pub open spec fn h_fits(self, mass: nat) -> bool {
        let e = self.eccentricity as int;
        66_743 * mass * wide_val(self.semimajor) * (1_000_000_000_000 - e * e) * 1_000_000
            < wide_limit()
    }

    /// Scaled specific angular momentum `sqrt(G m a (1 - e^2))`, at scale
    /// `PRECISION^3`: the conserved constant that gives `dt/dtheta = r^2 / h`.
    pub open spec fn spec_h(self, mass: nat) -> nat {
        let e = self.eccentricity as int;
        sqrt_floor(
            (66_743 * mass * wide_val(self.semimajor) * (1_000_000_000_000 - e * e)
                * 1_000_000) as nat,
        )
    }

    /// The squared distance times the quanta scale fits the wide integer.
    pub open spec fn d1_fits(self) -> bool {
        wide_val(self.semimajor) * wide_val(self.semimajor)
            * 4_000_000_000_000_000_000_000_000 < wide_limit()
    }

    /// Local time cost of angle at `theta`: `r(theta)^2 / h`, in quanta of
    /// 10^-12 seconds per microradian.
    pub open spec fn spec_d1_at(self, hval: nat, theta: int) -> int {
        let r = self.spec_orbital_distance(theta);
        r * r * 1_000_000_000_000_000_000_000_000 / (hval as int)
    }

    /// The integration step at `theta`, in microradians: a fixed base step of
    /// a 1024th of a turn, shrunk wherever the local bound on how fast
    /// `dt/dtheta` changes — `|d1'| <= d1 * 2 e |sin| / (1 + e cos)` per
    /// radian — allows it to drift by more than a 64th within one step.
    pub open spec fn spec_step(self, theta: int) -> int {
        let e = self.eccentricity as int;
        let s = sin_fixed_spec(theta);
        let sabs = if s < 0 { -s } else { s };
        if e * sabs == 0 {
            6_136
        } else {
            let sb = (1_000_000_000_000 + e * cos_fixed_spec(theta)) * 1_000_000 / (64 * (e
                * sabs));
            if sb < 1 {
                1
            } else if sb > 6_136 {
                6_136
            } else {
                sb
            }
        }
    }

    /// One pass of the adaptive integration: walk `out` forward while the
    /// remaining time budget (in quanta of 10^-12 s) lasts, sizing each step
    /// by the local curvature, and consume the last sliver with one exactly
    /// sized final step. The fuel caps the total work structurally; at the
    /// base step it covers thousands of revolutions, so it binds only outside
    /// the supported regime.
    pub open spec fn spec_predict_loop(self, hval: nat, remaining: nat, out: int, fuel: nat)
        -> int
        decreases fuel,
    {
        if remaining == 0 || fuel == 0 {
            out
        } else {
            let d1 = self.spec_d1_at(hval, out);
            if d1 <= 0 {
                out
            } else {
                let step = self.spec_step(out);
                let consume = d1 * step;
                if remaining <= consume {
                    norm_angle_spec(out + remaining as int / d1)
                } else {
                    self.spec_predict_loop(
                        hval,
                        (remaining - consume) as nat,
                        norm_angle_spec(out + step),
                        (fuel - 1) as nat,
                    )
                }
            }
        }
    }

    /// Everything the predictor assumes: a valid ellipse, a positive mass, a
    /// period of at least one second, and all intermediate products inside
    /// the wide integer.
    pub open spec fn predict_fits(self, mass: nat) -> bool {
        &&& self.valid()
        &&& mass >= 1
        &&& self.distance_fits()
        &&& self.period_fits(mass)
        &&& self.h_fits(mass)
        &&& self.d1_fits()
        &&& self.spec_orbital_period(mass) >= 1
    }

    /// True anomaly reached from `current` after `time` seconds: the time is
    /// reduced modulo the period, converted to quanta, and integrated by
    /// `spec_predict_loop`.
    pub open spec fn spec_predict_from(self, mass: nat, current: int, time: nat) -> int {
        let p = self.spec_orbital_period(mass);
        let rem0 = (time % (p as nat)) * 1_000_000_000_000;
        self.spec_predict_loop(self.spec_h(mass), rem0, norm_angle_spec(current), 16_777_216)
    }

    /// Time cost per microradian at `theta`, against the angular-momentum
    /// constant held in `h`.
    fn d1_at(&self, h: &UInt, theta: i64) -> (d1: UInt)
        requires
            self.valid(),
            self.distance_fits(),
            self.d1_fits(),
            wide_val(*h) >= 300_000_000,
        ensures
            wide_val(d1) == self.spec_d1_at(wide_val(*h), theta as int),
            wide_val(d1) * 6_136 < wide_limit(),
    {
        let ghost lim = wide_limit();
        let ghost a = wide_val(self.semimajor) as int;
        let r = self.orbital_distance(theta);
        let ghost rv = wide_val(r) as int;
        proof {
            assert(rv * rv < lim && rv * rv * 1_000_000_000_000_000_000_000_000 < lim)
                by (nonlinear_arith)
                requires
                    0 <= rv <= 2 * a,
                    1 <= a,
                    a * a * 4_000_000_000_000_000_000_000_000 < lim,
            ;
        }
        let rr = wide_mul(&r, &r);
        let num = wide_mul(&rr, &wide_from_u128(1_000_000_000_000_000_000_000_000));
        let d1 = wide_div(&num, h);
        proof {
            let nv = wide_val(num) as int;
            let hv = wide_val(*h) as int;
            let q = nv / 300_000_000;
            lemma_div_is_ordered_by_denominator(nv, 300_000_000, hv);
            vstd::arithmetic::div_mod::lemma_fundamental_div_mod(nv, 300_000_000);
            vstd::arithmetic::div_mod::lemma_mod_bound(nv, 300_000_000);
            assert(wide_val(d1) * 6_136 < lim) by (nonlinear_arith)
                requires
                    wide_val(d1) <= q,
                    q * 300_000_000 <= nv,
                    nv < lim,
                    0 <= q,
                    0 <= wide_val(d1),
            ;
        }
        d1
    }

    /// The adaptive step at `theta`, between 1 microradian and a 1024th of a
    /// turn.
    fn step_at(&self, theta: i64) -> (step: u64)
        requires
            self.valid(),
        ensures
            step == self.spec_step(theta as int),
            1 <= step <= 6_136,
    {
        let s = sin_fixed(theta);
        let sabs: i64 = if s < 0 { -s } else { s };
        let e = self.eccentricity;
        proof {
            assert(0 <= (e as int) * (sabs as int) <= 1_000_000_000_000) by (nonlinear_arith)
                requires
                    0 <= e < 1_000_000,
                    0 <= sabs <= 1_000_000,
            ;
        }
        let es: u128 = (e as u128) * (sabs as u128);
        if es == 0 {
            6_136
        } else {
            let c = cos_fixed(theta);
            proof {
                assert(-999_999_000_000 <= (e as int) * (c as int)
                    && (e as int) * (c as int) <= 1_000_000_000_000) by (nonlinear_arith)
                    requires
                        0 <= e < 1_000_000,
                        -1_000_000 <= c <= 1_000_000,
                ;
            }
            let ecp: i128 = 1_000_000_000_000i128 + (e as i128) * (c as i128);
            let num: u128 = (ecp as u128) * 1_000_000;
            let sb: u128 = num / (64 * es);
            if sb < 1 {
                1
            } else if sb > 6_136 {
                6_136
            } else {
                sb as u64
            }
        }
    }

    /// The period times the quanta scale stays inside the wide integer.
    proof fn lemma_period_quanta_fits(self, mass: nat)
        requires
            self.valid(),
            mass >= 1,
            self.period_fits(mass),
        ensures
            0 <= self.spec_orbital_period(mass),
            self.spec_orbital_period(mass) * 1_000_000_000_000 < wide_limit(),
    {
        let lim = wide_limit();
        let a = wide_val(self.semimajor) as int;
        let full = a * a * a * 1_000_000_000_000_000_000;
        let gm = 66_743 * mass;
        let inner = (full / gm as int) as nat;
        vstd::arithmetic::div_mod::lemma_div_basics(full);
        lemma_div_is_ordered_by_denominator(full, 1, gm as int);
        assert(inner <= full);
        crate::math::lemma_sqrt_floor_bounds(inner);
        let sf = sqrt_floor(inner) as int;
        assert(sf < 0x100000000000000000000000000000000int) by (nonlinear_arith)
            requires
                sf * sf <= inner,
                0 <= sf,
                inner < 0x10000000000000000000000000000000000000000000000000000000000000000int,
        ;
        let ts = 6_283_185 * sf;
        vstd::arithmetic::div_mod::lemma_div_basics(ts);
        lemma_div_is_ordered_by_denominator(ts, 1, 1_000_000);
        assert(self.spec_orbital_period(mass) <= ts);
        lemma_div_is_ordered(0, ts, 1_000_000);
        assert(ts * 1_000_000_000_000 < lim) by (nonlinear_arith)
            requires
                ts == 6_283_185 * sf,
                0 <= sf < 0x100000000000000000000000000000000int,
                lim == 0x10000000000000000000000000000000000000000000000000000000000000000int,
        ;
        lemma_mul_inequality(self.spec_orbital_period(mass), ts, 1_000_000_000_000);
        assert(self.spec_orbital_period(mass) * 1_000_000_000_000
            == 1_000_000_000_000 * self.spec_orbital_period(mass)) by (nonlinear_arith);
        assert(ts * 1_000_000_000_000 == 1_000_000_000_000 * ts) by (nonlinear_arith);
    }

    /// Predict the position of the orbiting body `time` seconds after it
    /// stood at true anomaly `current`. Mass of the primary in 10^6
    /// kilograms; angles in microradians from perihelion.
    pub fn predict_from(&self, mass: &UInt, current: i64, time: &UInt) -> (angle: i64)
        requires
            self.predict_fits(wide_val(*mass)),
        ensures
            angle == self.spec_predict_from(wide_val(*mass), current as int, wide_val(*time)),
            0 <= angle < TAU_INT,
    {
        let ghost lim = wide_limit();
        let ghost m = wide_val(*mass);
        let ghost a = wide_val(self.semimajor);
        let p = self.orbital_period(mass);
        let e = self.eccentricity;
        proof {
            assert((e as int) * (e as int) <= 999_998_000_001) by (nonlinear_arith)
                requires
                    0 <= e < 1_000_000,
            ;
        }
        let pe2: u128 = 1_000_000_000_000u128 - (e as u128) * (e as u128);
        proof {
            let x = 66_743 * (m as int) * (a as int) * (pe2 as int) * 1_000_000;
            assert(66_743 * m < lim && 66_743 * (m as int) * (a as int) < lim
                && 66_743 * (m as int) * (a as int) * (pe2 as int) < lim && 1 <= x)
                by (nonlinear_arith)
                requires
                    x == 66_743 * (m as int) * (a as int) * (pe2 as int) * 1_000_000,
                    x < lim,
                    1 <= m,
                    1 <= a,
                    1 <= pe2,
            ;
        }
        let gm = wide_mul(&wide_from_u128(GRAV_INT as u128), mass);
        let x1 = wide_mul(&gm, &self.semimajor);
        let x2 = wide_mul(&x1, &wide_from_u128(pe2));
        let x3 = wide_mul(&x2, &wide_from_u128(PRECISION as u128));
        let h = wide_sqrt(&x3);
        let ghost hv = wide_val(h);
        proof {
            lemma_sqrt_floor_unique(wide_val(x3), hv);
            assert(wide_val(x3) >= 133_485_933_257_000_000) by (nonlinear_arith)
                requires
                    wide_val(x3) == 66_743 * (m as int) * (a as int) * (pe2 as int) * 1_000_000,
                    1 <= m,
                    1 <= a,
                    1_999_999 <= pe2,
            ;
            assert(hv >= 300_000_000) by (nonlinear_arith)
                requires
                    (hv + 1) * (hv + 1) > 133_485_933_257_000_000,
                    0 <= hv,
            ;
            self.lemma_period_quanta_fits(m);
            vstd::arithmetic::div_mod::lemma_mod_bound(
                wide_val(*time) as int,
                wide_val(p) as int,
            );
        }
        let t = wide_rem(time, &p);
        proof {
            let pv = wide_val(p) as int;
            lemma_mul_inequality(wide_val(t) as int, pv - 1, 1_000_000_000_000);
            assert(wide_val(t) * 1_000_000_000_000
                == 1_000_000_000_000 * (wide_val(t) as int)) by (nonlinear_arith);
            assert((pv - 1) * 1_000_000_000_000 < pv * 1_000_000_000_000) by (nonlinear_arith);
        }
        let mut remaining = wide_mul(&t, &wide_from_u128(1_000_000_000_000));
        let mut out = norm_angle(current);
        let mut fuel: u64 = 16_777_216;
        let ghost target = self.spec_predict_loop(
            hv,
            wide_val(remaining),
            out as int,
            fuel as nat,
        );
        let zero = wide_from_u128(0);
        while fuel > 0 && wide_lt(&zero, &remaining)
            invariant
                self.predict_fits(m),
                m == wide_val(*mass),
                hv == self.spec_h(m),
                wide_val(h) == hv,
                hv >= 300_000_000,
                wide_val(zero) == 0,
                0 <= out < TAU_INT,
                self.spec_predict_loop(hv, wide_val(remaining), out as int, fuel as nat)
                    == target,
            decreases fuel,
        {
            let d1 = self.d1_at(&h, out);
            if !wide_lt(&zero, &d1) {
                // the supported regime is left: no measurable time per step
                fuel = 0;
            } else {
                let step = self.step_at(out);
                proof {
                    lemma_mul_inequality(step as int, 6_136, wide_val(d1) as int);
                    assert(wide_val(d1) * (step as int)
                        == (step as int) * (wide_val(d1) as int)) by (nonlinear_arith);
                    assert(wide_val(d1) * 6_136
                        == 6_136 * (wide_val(d1) as int)) by (nonlinear_arith);
                }
                let consume = wide_mul(&d1, &wide_from_u128(step as u128));
                if !wide_lt(&consume, &remaining) {
                    // final step, exactly sized to the remaining budget
                    let finw = wide_div(&remaining, &d1);
                    proof {
                        let d1v = wide_val(d1) as int;
                        let sv = step as int;
                        lemma_div_is_ordered(
                            wide_val(remaining) as int,
                            d1v * sv,
                            d1v,
                        );
                        lemma_div_by_multiple(sv, d1v);
                        assert(d1v * sv == sv * d1v) by (nonlinear_arith);
                    }
                    let fin = wide_to_u128(&finw);
                    out = norm_angle(out + (fin as i64));
                    remaining = wide_from_u128(0);
                    fuel = 0;
                } else {
                    remaining = wide_sub(&remaining, &consume);
                    out = norm_angle(out + (step as i64));
                    fuel = fuel - 1;
                }
            }
        }
        out
    }

    /// Where the body stands `time` seconds after epoch. A previous result
    /// `(t0, angle0)` may be passed back in: when `time` lies strictly beyond
    /// `t0`, only the gap is integrated; otherwise the pair is ignored and
    /// the integration restarts from the epoch angle, so a stale pair costs
    /// only time, never correctness.
    pub open spec fn spec_predict(self, mass: nat, time: nat, last: Option<(UInt, i64)>)
        -> int {
        match last {
            Some(pair) => {
                if wide_val(pair.0) < time {
                    self.spec_predict_from(
                        mass,
                        pair.1 as int,
                        (time - wide_val(pair.0)) as nat,
                    )
                } else {
                    self.spec_predict_from(mass, self.start as int, time)
                }
            },
            None => self.spec_predict_from(mass, self.start as int, time),
        }
    }

    /// Predict the true anomaly `time` seconds after epoch, optionally
    /// continuing from a previous `(time, angle)` result.
    pub fn predict(&self, mass: &UInt, time: &UInt, last: Option<(UInt, i64)>) -> (angle: i64)
        requires
            self.predict_fits(wide_val(*mass)),
        ensures
            angle == self.spec_predict(wide_val(*mass), wide_val(*time), last),
            0 <= angle < TAU_INT,
    {
        match &last {
            Some(pair) => {
                if wide_lt(&pair.0, time) {
                    let dt = wide_sub(time, &pair.0);
                    self.predict_from(mass, pair.1, &dt)
                } else {
                    self.predict_from(mass, self.start, time)
                }
            },
            None => self.predict_from(mass, self.start, time),
        }
    }
}

} // verus!
