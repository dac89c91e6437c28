//! Fixed-point numeric types.
//!
//! Market prices, fee/funding rates and converted money amounts are held as
//! scaled 128-bit integers, so every arithmetic step of the engine has an
//! exact mathematical meaning.  Three scales are used:
//!
//! * `Price`: millionths of a currency unit (scale `PRICE_SCALE`);
//! * `Rate`: billionths, i.e. a dimensionless fraction (scale `RATE_SCALE`);
//! * `Amount`: a price multiplied by a conversion factor
//!   (scale `PRICE_SCALE * PRICE_SCALE`).

use vstd::prelude::*;

verus! {

/// Scale of `Price`: raw units per currency unit.
pub const PRICE_SCALE: i128 = 1_000_000;

/// Scale of `Rate`: raw units per 1.0 (a 100% rate).
pub const RATE_SCALE: i128 = 1_000_000_000;

/// Scale of `Amount`: `PRICE_SCALE * PRICE_SCALE`.
pub const AMOUNT_SCALE: i128 = 1_000_000_000_000;

/// Largest admissible raw price (one hundred million currency units).
pub const MAX_PRICE_RAW: i128 = 100_000_000_000_000;

/// Largest admissible raw foreign-exchange rate (one hundred thousand units).
pub const MAX_FX_RAW: i128 = 100_000_000_000;

/// A market price in millionths of a currency unit.
#[derive(Clone, Copy, Debug, PartialEq, Eq, Structural, Hash)]
pub struct Price {
    pub raw: i128,
}

/// A dimensionless rate (fee, slippage or funding) in billionths.
#[derive(Clone, Copy, Debug, PartialEq, Eq, Structural, Hash)]
pub struct Rate {
    pub raw: i128,
}

/// Converted money, at scale `AMOUNT_SCALE`.
#[derive(Clone, Copy, Debug, PartialEq, Eq, Structural, Hash)]
pub struct Amount {
    pub raw: i128,
}

impl Price {
    /// The zero price.
    pub fn zero() -> (r: Price)
        ensures
            r.raw == 0,
    {
        Price { raw: 0 }
    }

    /// A whole number of currency units, e.g. `Price::from_units(100)` is 100.0.
    pub fn from_units(units: i64) -> (r: Price)
        ensures
            r.raw == units * PRICE_SCALE,
    {
        Price { raw: (units as i128) * PRICE_SCALE }
    }

    /// Whether the price lies in the range every store entry keeps.
    pub open spec fn wf(self) -> bool {
        0 <= self.raw <= MAX_PRICE_RAW
    }
}

impl Rate {
    /// The zero rate.
    pub fn zero() -> (r: Rate)
        ensures
            r.raw == 0,
    {
        Rate { raw: 0 }
    }

    /// Whether the rate's magnitude is at most 100%.
    pub open spec fn wf(self) -> bool {
        -RATE_SCALE <= self.raw <= RATE_SCALE
    }
}

/// `x * f / RATE_SCALE`, truncated toward zero; `x` must be nonnegative.
pub open spec fn spec_apply_rate(x: int, f: int) -> int {
    if f >= 0 {
        (x * f) / (RATE_SCALE as int)
    } else {
        -((x * (-f)) / (RATE_SCALE as int))
    }
}

/// Truncating division of a nonnegative value by a positive divisor.
pub fn div_nonneg(x: i128, d: i128) -> (r: i128)
    requires
        0 <= x,
        0 < d,
    ensures
        r == x as int / d as int,
{
    ((x as u128) / (d as u128)) as i128
}

/// Applies a scaled rate to a nonnegative base value, truncating toward zero.
pub fn apply_rate(x: i128, f: i128) -> (r: i128)
    requires
        0 <= x <= MAX_PRICE_RAW,
        -RATE_SCALE <= f <= 2 * RATE_SCALE,
    ensures
        r == spec_apply_rate(x as int, f as int),
        -x <= r <= 2 * x,
{
    proof {
        lemma_apply_rate_bounds(x as int, f as int);
    }
    if f >= 0 {
        (((x as u128) * (f as u128)) / (RATE_SCALE as u128)) as i128
    } else {
        let mag: i128 = (((x as u128) * ((-f) as u128)) / (RATE_SCALE as u128)) as i128;
        -mag
    }
}

/// Bounds of `spec_apply_rate` on the ranges `apply_rate` accepts.
pub proof fn lemma_apply_rate_bounds(x: int, f: int)
    requires
        0 <= x <= MAX_PRICE_RAW,
        -RATE_SCALE <= f <= 2 * RATE_SCALE,
    ensures
        -x <= spec_apply_rate(x, f) <= 2 * x,
        f >= 0 ==> 0 <= spec_apply_rate(x, f) <= 2 * x,
{
    if f >= 0 {
        assert(x * f <= x * (2 * RATE_SCALE)) by (nonlinear_arith)
            requires
                0 <= x,
                f <= 2 * RATE_SCALE,
        ;
        assert(0 <= x * f) by (nonlinear_arith)
            requires
                0 <= x,
                0 <= f,
        ;
        assert((x * f) / (RATE_SCALE as int) <= (x * (2 * RATE_SCALE)) / (RATE_SCALE as int))
            by (nonlinear_arith)
            requires
                0 <= x * f <= x * (2 * RATE_SCALE),
        ;
        assert((x * (2 * RATE_SCALE)) / (RATE_SCALE as int) == 2 * x) by (nonlinear_arith)
            requires
                0 <= x,
        ;
    } else {
        let m = -f;
        assert(0 <= x * m <= x * RATE_SCALE) by (nonlinear_arith)
            requires
                0 <= x,
                0 <= m <= RATE_SCALE,
        ;
        assert((x * m) / (RATE_SCALE as int) <= (x * RATE_SCALE) / (RATE_SCALE as int))
            by (nonlinear_arith)
            requires
                0 <= x * m <= x * RATE_SCALE,
        ;
        assert((x * RATE_SCALE) / (RATE_SCALE as int) == x) by (nonlinear_arith)
            requires
                0 <= x,
        ;
    }
}

} // verus!
