//! Stars: the data a sector holds about one star or a binary pair, and the
//! integer part of its radiometry. Irradiance at a distance is a floating
//! point quantity and lives outside the verified library.

use vstd::prelude::*;
use crate::wide::{UInt, wide_val, wide_limit, wide_from_u128, wide_mul, wide_div, wide_add};

verus! {

/// A star. Holds information pertaining to one star.
#[derive(Clone, Copy)]
pub struct StarData {
    /// Temperature in kelvins.
    pub temperature: u16,
    /// Mass in 10^6 kilograms.
    pub mass: UInt,
    /// Radius in kilometers.
    pub radius: UInt,
}

impl StarData {
    /// The Stefan-Boltzmann product fits the wide integer.
    pub open spec fn power_fits(self) -> bool {
        let t = self.temperature as int;
        let r = wide_val(self.radius) as int;
        &&& r * r < wide_limit()
        &&& 567_030_000 * (t * t * t * t) * 3_141_592 * 4 * (r * r) < wide_limit()
    }

    /// Power output in megawatts: the Stefan-Boltzmann law over the star's
    /// surface, `sigma * T^4 * pi * 4 * radius^2`, with the scaled constants
    /// renormalized by one `PRECISION^3` division.
    pub open spec fn spec_power_output(self) -> int {
        let t = self.temperature as int;
        let r = wide_val(self.radius) as int;
        567_030_000 * (t * t * t * t) * 3_141_592 * 4 * (r * r)
            / 1_000_000_000_000_000_000
    }

    /// Power output in megawatts.
    pub fn power_output(&self) -> (p: UInt)
        requires
            self.power_fits(),
        ensures
            wide_val(p) == self.spec_power_output(),
    {
        let t = self.temperature as u128;
        proof {
            assert(t * t <= 65_535 * 65_535 && (t * t) * (t * t)
                <= 18_445_618_199_572_250_625 && 567_030_000 * ((t * t) * (t * t))
                <= 10_458_818_886_903_566_026_933_750_000_000 && 567_030_000 * ((t * t) * (t
                * t)) * 3_141_592 <= 32_857_509_143_024_743_348_430_046_645_000_000_000
                ) by (nonlinear_arith)
                requires
                    0 <= t <= 65_535,
            ;
        }
        let t2: u128 = t * t;
        let t4: u128 = t2 * t2;
        let x: u128 = 567_030_000u128 * t4;
        let y: u128 = x * 3_141_592;
        let z: u128 = y * 4;
        let ghost tv = self.temperature as int;
        let ghost rv = wide_val(self.radius) as int;
        proof {
            assert(z == 567_030_000 * (tv * tv * tv * tv) * 3_141_592 * 4) by (nonlinear_arith)
                requires
                    z == 567_030_000 * ((tv * tv) * (tv * tv)) * 3_141_592 * 4,
            ;
            assert((z as int) * (rv * rv) == z * rv * rv) by (nonlinear_arith);
            assert(z * rv * rv < wide_limit() ==> (z as int) * (rv * rv) < wide_limit());
        }
        let rr = wide_mul(&self.radius, &self.radius);
        let zw = wide_from_u128(z);
        let prod = wide_mul(&zw, &rr);
        wide_div(&prod, &wide_from_u128(1_000_000_000_000_000_000))
    }
}

/// Either a star or a binary pair.
#[derive(Clone, Copy)]
pub enum Star {
    Single(StarData),
    Binary(StarData, StarData),
}

impl Star {
    /// Mass of the combined system, in 10^6 kilograms.
    pub open spec fn spec_mass(self) -> int {
        match self {
            Star::Single(star) => wide_val(star.mass) as int,
            Star::Binary(a, b) => wide_val(a.mass) as int + wide_val(b.mass) as int,
        }
    }

    /// Total mass fits the wide integer.
    pub open spec fn mass_fits(self) -> bool {
        self.spec_mass() < wide_limit()
    }

    /// Mass of the combined system.
    /// See `StarData::mass`.
    pub fn mass(&self) -> (m: UInt)
        requires
            self.mass_fits(),
        ensures
            wide_val(m) == self.spec_mass(),
    {
        match self {
            Star::Single(star) => star.mass,
            Star::Binary(a, b) => wide_add(&a.mass, &b.mass),
        }
    }

    /// Power output of the whole system, in megawatts.
    pub open spec fn spec_power_output(self) -> int {
        match self {
            Star::Single(star) => star.spec_power_output(),
            Star::Binary(a, b) => a.spec_power_output() + b.spec_power_output(),
        }
    }

    /// Every part of the summed power output fits the wide integer.
    pub open spec fn power_fits(self) -> bool {
        match self {
            Star::Single(star) => star.power_fits(),
            Star::Binary(a, b) => a.power_fits() && b.power_fits()
                && a.spec_power_output() + b.spec_power_output() < wide_limit(),
        }
    }

    /// Power output in megawatts.
    /// See `StarData::power_output`.
    pub fn power_output(&self) -> (p: UInt)
        requires
            self.power_fits(),
        ensures
            wide_val(p) == self.spec_power_output(),
    {
        match self {
            Star::Single(star) => star.power_output(),
            Star::Binary(a, b) => {
                let pa = a.power_output();
                let pb = b.power_output();
                wide_add(&pa, &pb)
            },
        }
    }
}

} // verus!
