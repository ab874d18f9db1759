//! Deterministic Keplerian orbital mechanics on fixed-point integers.
//!
//! Every physical quantity is held exactly in integers:
//! - lengths in kilometers, as wide unsigned integers;
//! - masses in units of 10^6 kilograms, as wide unsigned integers;
//! - times in whole seconds, as wide unsigned integers;
//! - angles in microradians (radians times `PRECISION`), as `i64`;
//! - dimensionless ratios (eccentricity, trigonometric values) scaled by
//!   `PRECISION`, so that `PRECISION` itself stands for 1.

use vstd::prelude::*;

pub mod laws;
pub mod math;
pub mod orbit;
pub mod sector;
pub mod trig;
pub mod wide;

verus! {

/// Fixed-point scale factor: a scaled quantity stores its value times this,
/// so `PRECISION` itself represents the real number 1.
pub const PRECISION: u64 = 1_000_000;

/// Half a turn in microradians: the circle constant pi at scale `PRECISION`.
pub const PI_INT: i64 = 3_141_592;

/// A full turn in microradians: the circle constant tau at scale `PRECISION`.
pub const TAU_INT: i64 = 6_283_185;

/// A quarter turn in microradians.
pub const HALF_PI_INT: i64 = 1_570_796;

/// Gravitational constant in km^3 / (10^6 kg * s^2), scaled by `PRECISION`^3.
pub const GRAV_INT: u64 = 66_743;

} // verus!
