//! Fixed-point arithmetic in thousandths ("milli" units).
//!
//! All fractional quantities in the library (CPU cores, gigabytes, seconds,
//! quality scores) are unsigned integers counting thousandths of a unit.
//! Quantities are capped at [`RES_MAX`]; every operation here saturates at
//! that cap, so results always stay within it and no operation overflows.

use vstd::prelude::*;

verus! {

/// One whole unit in milli representation.
pub const MILLI: u64 = 1000;

/// Ceiling on every quantity the library handles: one trillion whole units,
/// in milli representation. Well below `u64::MAX`, so a capped sum never
/// overflows `u64` and a product of two capped quantities fits in `u128`.
pub const RES_MAX: u64 = 1_000_000_000_000_000;

/// The capped sum of two milli quantities.
pub open spec fn spec_add_milli(a: u64, b: u64) -> u64 {
    if a + b > RES_MAX {
        RES_MAX
    } else {
        (a + b) as u64
    }
}

/// Saturating addition of milli quantities.
pub fn add_milli(a: u64, b: u64) -> (r: u64)
    ensures
        r == spec_add_milli(a, b),
        r <= RES_MAX,
{
    if a > RES_MAX {
        RES_MAX
    } else if b > RES_MAX - a {
        RES_MAX
    } else {
        a + b
    }
}

/// The capped product of a milli quantity and a milli factor:
/// `a * b / 1000`, saturated at `RES_MAX`.
pub open spec fn spec_mul_milli(a: u64, b: u64) -> u64 {
    if a * b / (MILLI as int) > RES_MAX {
        RES_MAX
    } else {
        (a * b / (MILLI as int)) as u64
    }
}

/// Saturating fixed-point multiplication: `a` scaled by the factor `b`
/// (both in milli units).
pub fn mul_milli(a: u64, b: u64) -> (r: u64)
    ensures
        r == spec_mul_milli(a, b),
{
    proof {
        assert((a as int) * (b as int) <= (u64::MAX as int) * (u64::MAX as int))
            by (nonlinear_arith)
            requires
                a <= u64::MAX,
                b <= u64::MAX,
        ;
    }
    let wide: u128 = (a as u128) * (b as u128) / (MILLI as u128);
    if wide > RES_MAX as u128 {
        RES_MAX
    } else {
        wide as u64
    }
}

/// The milli ratio `a * 1000 / b`, zero when `b` is zero, saturated at
/// `RES_MAX`.
pub open spec fn spec_ratio_milli(a: u64, b: u64) -> u64 {
    if b == 0 {
        0
    } else if a * (MILLI as int) / (b as int) > RES_MAX {
        RES_MAX
    } else {
        (a * (MILLI as int) / (b as int)) as u64
    }
}

/// Fixed-point division: the ratio of `a` to `b` in milli units.
/// A zero divisor yields zero.
pub fn ratio_milli(a: u64, b: u64) -> (r: u64)
    ensures
        r == spec_ratio_milli(a, b),
{
    if b == 0 {
        0
    } else {
        proof {
            assert((a as int) * (MILLI as int) <= (u64::MAX as int) * (MILLI as int))
                by (nonlinear_arith)
                requires
                    a <= u64::MAX,
            ;
        }
        let wide: u128 = (a as u128) * (MILLI as u128) / (b as u128);
        if wide > RES_MAX as u128 {
            RES_MAX
        } else {
            wide as u64
        }
    }
}

} // verus!
