use vstd::prelude::*;

use crate::config::{SCALE, WEIGHT_CAP};
use vstd::arithmetic::div_mod::{lemma_div_by_multiple, lemma_div_is_ordered};
use vstd::arithmetic::mul::lemma_mul_inequality;

verus! {

/// Scaling a value by a fraction of at most one never enlarges it.
pub proof fn lemma_mul_div_le(a: int, b: int, c: int)
    requires
        0 <= a,
        0 <= b <= c,
        0 < c,
    ensures
        a * b / c <= a,
{
    lemma_mul_inequality(b, c, a);
    assert(a * b <= a * c) by (nonlinear_arith)
        requires
            b * a <= c * a,
    ;
    lemma_div_is_ordered(a * b, a * c, c);
    lemma_div_by_multiple(a, c);
}

/// The product of two `u64` values always fits a `u128`.
pub proof fn lemma_u64_mul_fits(a: u64, b: u64)
    ensures
        a as int * b as int <= u128::MAX,
{
    assert(a as int * b as int <= u64::MAX as int * u64::MAX as int) by (nonlinear_arith)
        requires
            0 <= a as int <= u64::MAX as int,
            0 <= b as int <= u64::MAX as int,
    ;
}

/// Saturating sum: the exact sum where it fits a `u64`, else `u64::MAX`.
pub open spec fn sat_add_spec(a: u64, b: u64) -> u64 {
    if a + b <= u64::MAX {
        (a + b) as u64
    } else {
        u64::MAX
    }
}

/// Adds two fixed-point values, saturating at `u64::MAX`.
pub fn sat_add(a: u64, b: u64) -> (r: u64)
    ensures
        r == sat_add_spec(a, b),
        a <= r,
        b <= r,
{
    if a <= u64::MAX - b {
        a + b
    } else {
        u64::MAX
    }
}

/// Fixed-point product capped at `WEIGHT_CAP`: the mathematical product of
/// the two represented values, truncated to the grid, except that anything
/// above the cap comes out as the cap.
pub open spec fn fp_mul_spec(a: u64, b: u64) -> u64 {
    let p = a as int * b as int / (SCALE as int);
    if p > WEIGHT_CAP {
        WEIGHT_CAP
    } else {
        p as u64
    }
}

/// Multiplies two fixed-point values with the `WEIGHT_CAP` cap.
pub fn fp_mul(a: u64, b: u64) -> (r: u64)
    ensures
        r == fp_mul_spec(a, b),
        r <= WEIGHT_CAP,
{
    proof {
        lemma_u64_mul_fits(a, b);
    }
    let p: u128 = (a as u128) * (b as u128) / (SCALE as u128);
    if p > WEIGHT_CAP as u128 {
        WEIGHT_CAP
    } else {
        p as u64
    }
}

/// A capped fixed-point product stays within the cap.
pub proof fn lemma_fp_mul_cap(a: u64, b: u64)
    ensures
        fp_mul_spec(a, b) <= WEIGHT_CAP,
{
    vstd::arithmetic::mul::lemma_mul_nonnegative(a as int, b as int);
    vstd::arithmetic::div_mod::lemma_div_is_ordered(0, a as int * b as int, SCALE as int);
}

/// Fixed-point power with the cap of `fp_mul_spec` applied at every step:
/// `x` to the `e`, starting from one (that is, `SCALE`).
pub open spec fn pow_fp_spec(x: u64, e: nat) -> u64
    decreases e,
{
    if e == 0 {
        SCALE
    } else {
        fp_mul_spec(pow_fp_spec(x, (e - 1) as nat), x)
    }
}

/// Raises a fixed-point value to an integer power, capping as `fp_mul` does.
pub fn pow_fp(x: u64, e: u32) -> (r: u64)
    ensures
        r == pow_fp_spec(x, e as nat),
        r <= WEIGHT_CAP,
{
    let mut r: u64 = SCALE;
    let mut k: u32 = 0;
    while k < e
        invariant
            k <= e,
            r == pow_fp_spec(x, k as nat),
            r <= WEIGHT_CAP,
        decreases e - k,
    {
        r = fp_mul(r, x);
        k = k + 1;
    }
    r
}

} // verus!
