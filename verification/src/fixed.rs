//! The fixed-point number model shared by the whole engine.
//!
//! Every price, capital, fee, P&L and percentage is an `i64` scaled by
//! [`SCALE`]: the value `1.5` is stored as `150_000_000`.  Division always
//! truncates toward zero, which [`tdiv`] captures at the spec level.

use vstd::prelude::*;

verus! {

/// Scaling factor of every amount: one whole unit is `SCALE` ticks.
pub const SCALE: i64 = 100_000_000;

/// `100 * SCALE`: divides `price * pct` down to the amount that `pct`
/// percent of `price` stands for.
pub const PCT_DEN: i64 = 10_000_000_000;

/// Largest magnitude of a single amount that the contracts admit
/// (10^9 whole units).
pub const MONEY_MAX: i64 = 100_000_000_000_000_000;

/// Largest magnitude of an indicator reading: differences of two amounts
/// stay within `2 * MONEY_MAX`.
pub const IND_LIMIT: i64 = 200_000_000_000_000_000;

/// Division truncating toward zero, the semantics of every executable
/// division in this crate.
pub open spec fn tdiv(n: int, d: int) -> int {
    if n >= 0 {
        n / d
    } else {
        -((-n) / d)
    }
}

/// Division rounding away from zero, for non-negative operands.
pub open spec fn cdiv(n: int, d: int) -> int {
    (n + d - 1) / d
}

/// Whether `x` is inside the band the contracts admit for one amount.
pub open spec fn in_money(x: int) -> bool {
    -(MONEY_MAX as int) <= x <= MONEY_MAX as int
}

/// Truncating division on wide integers; the building block of all the
/// fixed-point arithmetic below.
pub fn div_i128(n: i128, d: i128) -> (r: i128)
    requires
        d > 0,
        n > i128::MIN,
    ensures
        r == tdiv(n as int, d as int),
{
    if n >= 0 {
        ((n as u128) / (d as u128)) as i128
    } else {
        let m: u128 = (-n) as u128;
        -((m / (d as u128)) as i128)
    }
}

/// Division rounding away from zero on non-negative wide integers.
pub fn ceil_div_u128(n: u128, d: u128) -> (r: u128)
    requires
        d > 0,
        n + d - 1 <= u128::MAX,
    ensures
        r == cdiv(n as int, d as int),
{
    (n + (d - 1)) / d
}

/// A product of values bounded in magnitude is bounded by the product of the
/// bounds.
pub proof fn lemma_abs_mul_le(a: int, b: int, aa: int, bb: int)
    by (nonlinear_arith)
    requires
        -aa <= a <= aa,
        -bb <= b <= bb,
        0 <= aa,
        0 <= bb,
    ensures
        -(aa * bb) <= a * b <= aa * bb,
{
}

/// Truncating division never grows the magnitude of its dividend.
pub proof fn lemma_tdiv_mag(n: int, d: int)
    by (nonlinear_arith)
    requires
        d >= 1,
    ensures
        n >= 0 ==> 0 <= tdiv(n, d) <= n,
        n < 0 ==> n <= tdiv(n, d) <= 0,
{
}

/// Truncating division within a symmetric band stays in the band.
pub proof fn lemma_tdiv_bound(n: int, d: int, m: int)
    requires
        d >= 1,
        0 <= m,
        -m <= n <= m,
    ensures
        -m <= tdiv(n, d) <= m,
{
    lemma_tdiv_mag(n, d);
}

/// A dividend within `d` times a band divides down into the band.
pub proof fn lemma_tdiv_quotient_bound(n: int, d: int, m: int)
    by (nonlinear_arith)
    requires
        d >= 1,
        0 <= m,
        -(d * m) <= n <= d * m,
    ensures
        -m <= tdiv(n, d) <= m,
{
}

} // verus!
