//! Wide unsigned integers for astronomical magnitudes.
//!
//! Lengths, masses and times are held in a 256-bit unsigned integer, wide
//! enough that every intermediate product of the orbital formulas fits before
//! the compensating division renormalizes the fixed-point scale. The integer
//! type itself comes from the `bnum` crate; this module declares it to the
//! verifier and gives each arithmetic operation the library relies on a
//! contract over the abstract value `wide_val`.

use vstd::prelude::*;
use bnum::BUint;

verus! {

/// 256-bit unsigned integer: four 64-bit digits.
pub type UInt = BUint<4>;

#[verifier::external_type_specification]
#[verifier::external_body]
pub struct ExBUint<const N: usize>(BUint<N>);

/// The numeric value a wide integer holds, as a mathematical natural number.
pub uninterp spec fn wide_val(x: UInt) -> nat;

/// One past the largest value a wide integer can hold, 2^256.
pub open spec fn wide_limit() -> nat {
    0x10000000000000000000000000000000000000000000000000000000000000000nat
}

/// Relies on `<bnum::BUint<4> as From<u128>>::from`: exact, lossless
/// conversion of a `u128` into the wide integer.
#[verifier::external_body]
pub(crate) fn wide_from_u128(x: u128) -> (r: UInt)
    ensures
        wide_val(r) == x,
{
    UInt::from(x)
}

/// Relies on `<u128 as TryFrom<bnum::BUint<4>>>::try_from`: exact conversion
/// back to `u128`, which succeeds exactly when the value fits.
#[verifier::external_body]
pub(crate) fn wide_to_u128(x: &UInt) -> (r: u128)
    requires
        wide_val(*x) <= u128::MAX,
    ensures
        r == wide_val(*x),
{
    u128::try_from(*x).unwrap()
}

/// Relies on `<bnum::BUint<4> as core::ops::Add>::add`: exact addition when
/// the sum stays below 2^256.
#[verifier::external_body]
pub(crate) fn wide_add(a: &UInt, b: &UInt) -> (r: UInt)
    requires
        wide_val(*a) + wide_val(*b) < wide_limit(),
    ensures
        wide_val(r) == wide_val(*a) + wide_val(*b),
{
    *a + *b
}

/// Relies on `<bnum::BUint<4> as core::ops::Sub>::sub`: exact subtraction when
/// the minuend is at least the subtrahend.
#[verifier::external_body]
pub(crate) fn wide_sub(a: &UInt, b: &UInt) -> (r: UInt)
    requires
        wide_val(*b) <= wide_val(*a),
    ensures
        wide_val(r) == wide_val(*a) - wide_val(*b),
{
    *a - *b
}

/// Relies on `<bnum::BUint<4> as core::ops::Mul>::mul`: exact multiplication
/// when the product stays below 2^256.
#[verifier::external_body]
pub(crate) fn wide_mul(a: &UInt, b: &UInt) -> (r: UInt)
    requires
        wide_val(*a) * wide_val(*b) < wide_limit(),
    ensures
        wide_val(r) == wide_val(*a) * wide_val(*b),
{
    *a * *b
}

/// Relies on `<bnum::BUint<4> as core::ops::Div>::div`: floor division by a
/// nonzero divisor.
#[verifier::external_body]
pub(crate) fn wide_div(a: &UInt, b: &UInt) -> (r: UInt)
    requires
        wide_val(*b) >= 1,
    ensures
        wide_val(r) == wide_val(*a) / wide_val(*b),
{
    *a / *b
}

/// Relies on `<bnum::BUint<4> as core::ops::Rem>::rem`: remainder of floor
/// division by a nonzero divisor.
#[verifier::external_body]
pub(crate) fn wide_rem(a: &UInt, b: &UInt) -> (r: UInt)
    requires
        wide_val(*b) >= 1,
    ensures
        wide_val(r) == wide_val(*a) % wide_val(*b),
{
    *a % *b
}

/// Relies on `<bnum::BUint<4> as num_integer::Roots>::sqrt`: the truncated
/// principal square root, the unique `r` with `r^2 <= x < (r+1)^2`.
#[verifier::external_body]
pub(crate) fn wide_sqrt(x: &UInt) -> (r: UInt)
    ensures
        wide_val(r) * wide_val(r) <= wide_val(*x),
        wide_val(*x) < (wide_val(r) + 1) * (wide_val(r) + 1),
{
    num_integer::Roots::sqrt(x)
}

/// Relies on `<bnum::BUint<4> as PartialOrd>::lt`: the order of wide integers
/// is the order of the values they hold.
#[verifier::external_body]
pub(crate) fn wide_lt(a: &UInt, b: &UInt) -> (r: bool)
    ensures
        r <==> wide_val(*a) < wide_val(*b),
{
    *a < *b
}

} // verus!
