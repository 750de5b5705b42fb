//! Market-sentiment adjustment of the strategy weights.
use vstd::prelude::*;
use crate::fixed::{div_floor_i128, mul_wide, scale, SCALE};
use crate::strategy::StrategyWeights;

verus! {

/// A reading of the fear-and-greed index: 0 is extreme fear, 100 extreme greed.
#[derive(Debug)]
pub struct FearGreedIndex {
    pub value: u8,
    pub classification: String,
}

/// `low` at fear (`greed == 0`), `high` at full greed (`greed == SCALE`), and
/// linear in between, rounded down.
pub open spec fn linear_scale_spec(low: int, high: int, greed: int) -> int {
    low + (high - low) * greed / scale()
}

/// `base * factor` (both in units of `1 / SCALE`), rounded down and capped at
/// the largest 64-bit weight.
pub open spec fn scaled_weight(base: u64, factor: int) -> int {
    let w = base * factor / scale();
    if w > u64::MAX {
        u64::MAX as int
    } else {
        w
    }
}

/// The factors `(low, high)` of each strategy: buy-the-dip weighs most in fear,
/// take-profit most in greed, EMA and RSI move mildly, grid not at all.
pub open spec fn adjusted_weights(base: StrategyWeights, greed: int) -> StrategyWeights {
    StrategyWeights {
        ema: scaled_weight(base.ema, linear_scale_spec(90_000_000, 110_000_000, greed)) as u64,
        rsi: scaled_weight(base.rsi, linear_scale_spec(110_000_000, 90_000_000, greed)) as u64,
        grid: scaled_weight(base.grid, linear_scale_spec(100_000_000, 100_000_000, greed)) as u64,
        buy_dip: scaled_weight(base.buy_dip, linear_scale_spec(150_000_000, 50_000_000, greed)) as u64,
        tp_or_bb: scaled_weight(base.tp_or_bb, linear_scale_spec(50_000_000, 150_000_000, greed)) as u64,
    }
}

fn linear_scale(low: u64, high: u64, greed: u64) -> (r: u64)
    requires
        low <= 2 * SCALE,
        high <= 2 * SCALE,
        greed <= SCALE,
    ensures
        r == linear_scale_spec(low as int, high as int, greed as int),
        r <= 2 * SCALE,
{
    let d = high as i128 - low as i128;
    assert(-0x1_0000_0000_0000_0000 < d * greed < 0x1_0000_0000_0000_0000) by (nonlinear_arith)
        requires
            -200_000_000 <= d <= 200_000_000,
            0 <= greed <= 100_000_000,
    ;
    let n = d * greed as i128;
    let q = div_floor_i128(n, SCALE as u128);
    proof {
        let s = scale();
        assert(-(low as int) * s <= n <= (2 * s - low) * s) by (nonlinear_arith)
            requires
                n == (high - low) * greed,
                0 <= greed <= s,
                0 <= low <= 2 * s,
                0 <= high <= 2 * s,
        ;
        vstd::arithmetic::div_mod::lemma_div_is_ordered(-(low as int) * s, n as int, s);
        vstd::arithmetic::div_mod::lemma_div_is_ordered(n as int, (2 * s - low) * s, s);
        vstd::arithmetic::div_mod::lemma_div_multiples_vanish(-(low as int), s);
        vstd::arithmetic::div_mod::lemma_div_multiples_vanish(2 * s - low, s);
        assert(-(low as int) * s == s * (-(low as int))) by (nonlinear_arith);
        assert((2 * s - low) * s == s * (2 * s - low)) by (nonlinear_arith);
    }
    (low as i128 + q) as u64
}

fn scale_weight(base: u64, factor: u64) -> (r: u64)
    ensures
        r == scaled_weight(base, factor as int),
{
    let w = mul_wide(base, factor) / (SCALE as u128);
    if w > u64::MAX as u128 {
        u64::MAX
    } else {
        w as u64
    }
}

impl FearGreedIndex {
    /// The index as a fraction of one, in units of `1 / SCALE`.
    pub fn normalize_weight(&self) -> (r: u64)
        ensures
            r == self.value * scale() / 100,
            r == self.value * 1_000_000,
    {
        assert(self.value * scale() / 100 == self.value * 1_000_000) by {
            let v = self.value as int;
            assert(v * scale() == 100 * (v * 1_000_000)) by (nonlinear_arith)
                requires
                    scale() == 100_000_000,
            ;
            vstd::arithmetic::div_mod::lemma_div_multiples_vanish(self.value * 1_000_000, 100);
        }
        self.value as u64 * 1_000_000
    }

    /// Scales each base weight by a factor that moves linearly with greed.
    pub fn apply(&self, base: &StrategyWeights) -> (r: StrategyWeights)
        requires
            self.value <= 100,
        ensures
            r == adjusted_weights(*base, self.value * scale() / 100),
    {
        let greed = self.normalize_weight();
        StrategyWeights {
            ema: scale_weight(base.ema, linear_scale(90_000_000, 110_000_000, greed)),
            rsi: scale_weight(base.rsi, linear_scale(110_000_000, 90_000_000, greed)),
            grid: scale_weight(base.grid, linear_scale(100_000_000, 100_000_000, greed)),
            buy_dip: scale_weight(base.buy_dip, linear_scale(150_000_000, 50_000_000, greed)),
            tp_or_bb: scale_weight(base.tp_or_bb, linear_scale(50_000_000, 150_000_000, greed)),
        }
    }
}

} // verus!
