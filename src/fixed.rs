//! Fixed-point representation shared by every module.
//!
//! Prices, balances, fractions, percentages and weights are integers that
//! count units of one hundred-millionth: the value `1.0` is written `SCALE`.
use vstd::prelude::*;

verus! {

/// Units per whole value.
pub const SCALE: u64 = 100_000_000;

/// Units per hundred percent, `100 * SCALE`.
pub const PERCENT_SCALE: u128 = 10_000_000_000;

/// `SCALE` as a mathematical integer.
pub open spec fn scale() -> int {
    SCALE as int
}

/// The larger of two integers.
pub open spec fn max_int(a: int, b: int) -> int {
    if a >= b {
        a
    } else {
        b
    }
}

/// For a non-negative `x`, the floor of `-x / d` is minus the ceiling of `x / d`.
pub proof fn lemma_floor_div_neg(x: int, d: int)
    requires
        x >= 0,
        d > 0,
    ensures
        (-x) / d == -((x + d - 1) / d),
{
    let q = (x + d - 1) / d;
    let r = (x + d - 1) % d;
    assert(x + d - 1 == q * d + r && 0 <= r < d) by {
        vstd::arithmetic::div_mod::lemma_fundamental_div_mod(x + d - 1, d);
    }
    // -x = -q * d + (d - 1 - r), with 0 <= d - 1 - r < d
    assert(-x == (-q) * d + (d - 1 - r)) by (nonlinear_arith)
        requires
            x + d - 1 == q * d + r,
    ;
    vstd::arithmetic::div_mod::lemma_fundamental_div_mod_converse(-x, d, -q, d - 1 - r);
}

/// The exact product of two 64-bit values.
pub fn mul_wide(a: u64, b: u64) -> (r: u128)
    ensures
        r == a * b,
{
    proof {
        lemma_mul_u64_fits(a, b);
    }
    (a as u128) * (b as u128)
}

/// The product of two 64-bit values fits in 128 bits.
pub proof fn lemma_mul_u64_fits(a: u64, b: u64)
    ensures
        0 <= a * b <= 0xffff_ffff_ffff_fffe_0000_0000_0000_0001,
{
    assert(0 <= a * b <= 0xffff_ffff_ffff_fffe_0000_0000_0000_0001) by (nonlinear_arith)
        requires
            0 <= a <= 0xffff_ffff_ffff_ffff,
            0 <= b <= 0xffff_ffff_ffff_ffff,
    ;
}

/// Signed quotient of `n` by a positive divisor, rounded toward negative infinity.
pub fn div_floor_i128(n: i128, d: u128) -> (r: i128)
    requires
        d > 0,
        d <= i128::MAX,
    ensures
        r == (n as int) / (d as int),
{
    if n >= 0 {
        let q = (n as u128) / d;
        assert(q <= n) by {
            vstd::arithmetic::div_mod::lemma_div_is_ordered_by_denominator(n as int, 1, d as int);
        }
        q as i128
    } else {
        let x: u128 = (0 - (n + 1)) as u128 + 1;
        assert(x == -n);
        proof {
            lemma_floor_div_neg(x as int, d as int);
        }
        let q = (x + (d - 1)) / d;
        assert(1 <= q <= x) by {
            assert(1 <= (x + d - 1) / (d as int) <= x) by (nonlinear_arith)
                requires
                    d >= 1,
                    x >= 1,
            {
                vstd::arithmetic::div_mod::lemma_div_is_ordered_by_denominator(x + d - 1, 1, d as int);
                vstd::arithmetic::div_mod::lemma_div_is_ordered(d as int, x + d - 1, d as int);
                vstd::arithmetic::div_mod::lemma_div_by_self(d as int);
            }
        }
        -((q - 1) as i128) - 1
    }
}

} // verus!
