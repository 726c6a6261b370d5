//! Fixed-point channel values: the working form of a color channel.
//!
//! One 8-bit level is `SCALE` units, so an 8-bit value `v` is exactly
//! `v * SCALE`. `SCALE` is divisible by every uniform step count (1..=7), by
//! every kernel divisor, and by 1000 (the luminance weights' denominator), so
//! these conversions are exact.
use vstd::prelude::*;

verus! {

/// Number of fixed-point units in one 8-bit level.
pub const SCALE: i64 = 672000;

/// The largest 8-bit level, in fixed-point units.
pub const TOP: i64 = 171360000;

/// Floor division by a positive divisor.
pub fn floor_div(p: i128, d: i128) -> (q: i128)
    requires
        d > 0,
        -0x4000_0000_0000_0000_0000_0000_0000_0000 <= p <= 0x4000_0000_0000_0000_0000_0000_0000_0000,
    ensures
        q == p / d,
{
    if p >= 0 {
        p / d
    } else {
        let a: i128 = -p - 1;
        let t: i128 = a / d;
        proof {
            lemma_floor_neg(p as int, d as int, t as int);
        }
        -t - 1
    }
}

proof fn lemma_floor_neg(p: int, d: int, t: int)
    requires
        d > 0,
        p < 0,
        t == (-p - 1) / d,
    ensures
        -t - 1 == p / d,
{
    let a = -p - 1;
    vstd::arithmetic::div_mod::lemma_fundamental_div_mod(a, d);
    vstd::arithmetic::div_mod::lemma_fundamental_div_mod(p, d);
    let m = a % d;
    assert(a == d * t + m);
    assert(p == (-t - 1) * d + (d - 1 - m)) by (nonlinear_arith)
        requires
            a == d * t + m,
            a == -p - 1,
    ;
    vstd::arithmetic::div_mod::lemma_fundamental_div_mod_converse(p, d, -t - 1, d - 1 - m);
}

} // verus!
