//! Overflow-checked arithmetic and basis-point scaling.
//!
//! All amount arithmetic in the engine goes through these helpers: a
//! result that does not fit is reported as an error, never silently
//! wrapped.

use vstd::prelude::*;
use crate::errors::StakeError;

verus! {

/// One whole, expressed in basis points: multipliers divide by this.
pub const BPS_POWER: u64 = 10_000;

/// `amount` scaled by a basis-point multiplier, truncating any
/// fractional remainder (accepted protocol rounding loss).
pub open spec fn scaled_bps(amount: u64, bps: u32) -> int {
    (amount * bps) / (BPS_POWER as int)
}

/// `a + b` when the sum fits in a `u64`, else an overflow error.
pub fn checked_add_u64(a: u64, b: u64) -> (r: Result<u64, StakeError>)
    ensures
        a + b <= u64::MAX ==> r == Ok::<u64, StakeError>((a + b) as u64),
        a + b > u64::MAX ==> r == Err::<u64, StakeError>(StakeError::ArithmeticOverflow),
{
    if a <= u64::MAX - b {
        Ok(a + b)
    } else {
        Err(StakeError::ArithmeticOverflow)
    }
}

/// `a - b` when `b <= a`, else an underflow error.
pub fn checked_sub_u64(a: u64, b: u64) -> (r: Result<u64, StakeError>)
    ensures
        b <= a ==> r == Ok::<u64, StakeError>((a - b) as u64),
        b > a ==> r == Err::<u64, StakeError>(StakeError::ArithmeticUnderflow),
{
    if b <= a {
        Ok(a - b)
    } else {
        Err(StakeError::ArithmeticUnderflow)
    }
}

/// The product of two `u64` values stays below `2^128`.
proof fn lemma_mul_u64_fits_u128(a: u64, b: u64)
    ensures
        a * b <= u64::MAX * u64::MAX,
{
    assert(a * b <= u64::MAX * u64::MAX) by (nonlinear_arith)
        requires
            a <= u64::MAX,
            b <= u64::MAX,
    ;
}

/// `floor(amount * bps / BPS_POWER)` when it fits in a `u64`, else an
/// overflow error.
pub fn apply_bps(amount: u64, bps: u32) -> (r: Result<u64, StakeError>)
    ensures
        scaled_bps(amount, bps) <= u64::MAX ==> r == Ok::<u64, StakeError>(
            scaled_bps(amount, bps) as u64,
        ),
        scaled_bps(amount, bps) > u64::MAX ==> r == Err::<u64, StakeError>(
            StakeError::ArithmeticOverflow,
        ),
{
    proof {
        lemma_mul_u64_fits_u128(amount, bps as u64);
    }
    let wide: u128 = (amount as u128) * (bps as u128);
    let q: u128 = wide / (BPS_POWER as u128);
    if q <= u64::MAX as u128 {
        Ok(q as u64)
    } else {
        Err(StakeError::ArithmeticOverflow)
    }
}

/// `acc + weight * rate` when the total fits in a `u64`, else an
/// overflow error. The workhorse of reward accumulation.
pub fn accumulate_payout(acc: u64, weight: u64, rate: u64) -> (r: Result<u64, StakeError>)
    ensures
        acc + weight * rate <= u64::MAX ==> r == Ok::<u64, StakeError>(
            (acc + weight * rate) as u64,
        ),
        acc + weight * rate > u64::MAX ==> r == Err::<u64, StakeError>(
            StakeError::ArithmeticOverflow,
        ),
{
    proof {
        lemma_mul_u64_fits_u128(weight, rate);
    }
    let term: u128 = (weight as u128) * (rate as u128);
    if term <= (u64::MAX - acc) as u128 {
        Ok(acc + term as u64)
    } else {
        Err(StakeError::ArithmeticOverflow)
    }
}

} // verus!
