//! Fixed-point fractions with eighteen decimal places, as the chain's
//! standard library represents royalty portions.
use vstd::prelude::*;

verus! {

/// The number of atomic units in one whole unit.
pub const DECIMAL_FRACTIONAL: u128 = 1_000_000_000_000_000_000u128;

/// `numerator * factor / denominator`, rounded down.
pub open spec fn ratio(numerator: int, factor: int, denominator: int) -> int {
    numerator * factor / denominator
}

/// Multiplies `value` by `numerator / denominator` with a 256-bit
/// intermediate, as `cosmwasm_std::Uint128::checked_multiply_ratio` does.
/// Its source returns an error when the denominator is zero or the floored
/// quotient does not fit in 128 bits, and the quotient otherwise.
#[verifier::external_body]
fn uint128_checked_multiply_ratio(value: u128, numerator: u128, denominator: u128) -> (r: Option<u128>)
    ensures
        denominator == 0 ==> r is None,
        denominator != 0 ==> (r is Some <==> ratio(value as int, numerator as int, denominator as int) <= u128::MAX),
        r matches Some(q) ==> q == ratio(value as int, numerator as int, denominator as int),
{
    match cosmwasm_std::Uint128::new(value).checked_multiply_ratio(numerator, denominator) {
        Ok(q) => Some(q.u128()),
        Err(_) => None,
    }
}

/// Builds the decimal `numerator / denominator` with
/// `cosmwasm_std::Decimal::checked_from_ratio`. Its source multiplies the
/// numerator by 10^18 and divides by the denominator (rounding down), and
/// fails when the denominator is zero or the result does not fit in 128 bits.
#[verifier::external_body]
fn decimal_checked_from_ratio(numerator: u128, denominator: u128) -> (r: Option<u128>)
    ensures
        denominator == 0 ==> r is None,
        denominator != 0 ==> (r is Some <==> ratio(numerator as int, DECIMAL_FRACTIONAL as int, denominator as int) <= u128::MAX),
        r matches Some(a) ==> a == ratio(numerator as int, DECIMAL_FRACTIONAL as int, denominator as int),
{
    match cosmwasm_std::Decimal::checked_from_ratio(numerator, denominator) {
        Ok(d) => Some(d.atomics().u128()),
        Err(_) => None,
    }
}

/// A non-negative fraction held as a count of 10^-18 units.
#[derive(Clone, Copy, Debug, PartialEq, Eq, Structural)]
pub struct Decimal {
    pub atomics: u128,
}

impl Decimal {
    /// The fraction that `atomics` units of 10^-18 make.
    pub fn raw(atomics: u128) -> (d: Decimal)
        ensures
            d.atomics == atomics,
    {
        Decimal { atomics }
    }

    /// One whole unit.
    pub fn one() -> (d: Decimal)
        ensures
            d.atomics == DECIMAL_FRACTIONAL,
    {
        Decimal { atomics: DECIMAL_FRACTIONAL }
    }

    /// `numerator / denominator`, or `None` where the denominator is zero or
    /// the fraction is too large to hold.
    pub fn checked_from_ratio(numerator: u128, denominator: u128) -> (r: Option<Decimal>)
        ensures
            r is Some <==> (denominator != 0 && ratio(numerator as int, DECIMAL_FRACTIONAL as int, denominator as int) <= u128::MAX),
            r matches Some(d) ==> d.atomics == ratio(numerator as int, DECIMAL_FRACTIONAL as int, denominator as int),
    {
        match decimal_checked_from_ratio(numerator, denominator) {
            Some(a) => Some(Decimal { atomics: a }),
            None => None,
        }
    }

    /// `numerator / denominator`, for a non-zero denominator and a fraction
    /// small enough to hold.
    pub fn from_ratio(numerator: u128, denominator: u128) -> (d: Decimal)
        requires
            denominator != 0,
            ratio(numerator as int, DECIMAL_FRACTIONAL as int, denominator as int) <= u128::MAX,
        ensures
            d.atomics == ratio(numerator as int, DECIMAL_FRACTIONAL as int, denominator as int),
    {
        match decimal_checked_from_ratio(numerator, denominator) {
            Some(a) => Decimal { atomics: a },
            None => Decimal { atomics: 0 },
        }
    }

    /// `amount` times this fraction, rounded down, or `None` where the
    /// product does not fit in 128 bits.
    pub fn checked_mul_floor(&self, amount: u128) -> (r: Option<u128>)
        ensures
            r is Some <==> ratio(amount as int, self.atomics as int, DECIMAL_FRACTIONAL as int) <= u128::MAX,
            r matches Some(q) ==> q == ratio(amount as int, self.atomics as int, DECIMAL_FRACTIONAL as int),
    {
        uint128_checked_multiply_ratio(amount, self.atomics, DECIMAL_FRACTIONAL)
    }
}

} // verus!
