//! The five signal generators and the function that runs the selected ones.
//!
//! Every generator reads a sequence of closing prices, oldest first, and
//! returns its opinion as of the most recent price.
use vstd::prelude::*;
use crate::fixed::{mul_wide, scale, PERCENT_SCALE, SCALE};
use crate::config::Config;
use crate::signal::{Signal, Signals};

verus! {

/// The strategy whose opinion drives the decision; `Combined` reconciles all
/// computed opinions by weight.
#[derive(Debug, Clone, Copy, PartialEq, Eq, Structural)]
pub enum Strategy {
    Ema,
    Rsi,
    Grid,
    BuyDip,
    TpOBb,
    Combined,
}

/// Non-negative weight of each strategy, in units of `1 / SCALE`.
#[derive(Debug, Clone, Copy, PartialEq, Eq, Structural)]
pub struct StrategyWeights {
    pub ema: u64,
    pub rsi: u64,
    pub grid: u64,
    pub buy_dip: u64,
    pub tp_or_bb: u64,
}

// ----------------------------------------------------------------------- grid

/// The grid computations for these inputs stay within 128 bits.
pub open spec fn grid_fits(prices: Seq<u64>, grid_levels: usize, range: u64) -> bool {
    prices.len() == 0 || 2 * prices.last() * range * grid_levels <= u128::MAX
}

/// Grid cell of `price` in the band `latest * (1 -/+ range)` cut into `levels`
/// equal steps. All bounds are multiplied by `SCALE`, which keeps them exact.
pub open spec fn grid_index(price: u64, latest: u64, levels: int, range: u64) -> int {
    let lo = latest * scale() - latest * range;
    let hi = latest * scale() + latest * range;
    let x = if price * scale() < lo {
        lo
    } else if price * scale() > hi {
        hi
    } else {
        price * scale()
    };
    let raw = (x - lo) * levels / (hi - lo);
    if raw < 0 {
        0
    } else if raw > levels - 1 {
        levels - 1
    } else {
        raw
    }
}

/// Last change of grid cell among the first `n` prices: `Buy` when the cell
/// went down, `Sell` when it went up, `Hold` when it never changed.
pub open spec fn grid_signal_upto(prices: Seq<u64>, levels: int, range: u64, n: nat) -> Signal
    decreases n,
{
    if n < 2 {
        Signal::Hold
    } else {
        let a = grid_index(prices[n - 2], prices.last(), levels, range);
        let b = grid_index(prices[n - 1], prices.last(), levels, range);
        if b < a {
            Signal::Buy
        } else if b > a {
            Signal::Sell
        } else {
            grid_signal_upto(prices, levels, range, (n - 1) as nat)
        }
    }
}

/// The grid strategy's signal on the whole sequence.
pub open spec fn grid_spec(prices: Seq<u64>, grid_levels: usize, range: u64) -> Signal {
    if prices.len() == 0 || grid_levels == 0 || range == 0 || prices.last() == 0 {
        Signal::Hold
    } else {
        grid_signal_upto(prices, grid_levels as int, range, prices.len())
    }
}

/// Grid cell of one price; see `grid_index`.
fn grid_cell(price: u64, latest: u64, levels: usize, range: u64) -> (r: usize)
    requires
        latest > 0,
        range > 0,
        levels > 0,
        2 * latest * range * levels <= u128::MAX,
    ensures
        r == grid_index(price, latest, levels as int, range),
{
    let ls = mul_wide(latest, SCALE);
    let lr = mul_wide(latest, range);
    let x = mul_wide(price, SCALE);
    let n = levels as u128;
    proof {
        assert(lr >= 1) by (nonlinear_arith)
            requires
                lr == latest * range,
                latest >= 1,
                range >= 1,
        ;
        assert(2 * lr * n <= u128::MAX) by (nonlinear_arith)
            requires
                lr == latest * range,
                n == levels,
                2 * latest * range * levels <= u128::MAX,
        ;
        assert(2 * lr <= 2 * lr * n) by (nonlinear_arith)
            requires
                n >= 1,
                lr >= 0,
        ;
        assert(ls <= 0xffff_ffff_ffff_ffff * 100_000_000) by (nonlinear_arith)
            requires
                ls == latest * 100_000_000,
                latest <= 0xffff_ffff_ffff_ffff,
        ;
    }
    let w = 2 * lr;
    let hi = ls + lr;
    let ghost lo_s: int = latest * scale() - latest * range;
    let ghost hi_s: int = latest * scale() + latest * range;
    assert(hi_s == hi && lo_s == ls - lr && hi_s - lo_s == w && x == price * scale());
    if x >= hi {
        proof {
            assert((w * n) / (w as int) == n) by (nonlinear_arith)
                requires
                    w > 0,
            {
                vstd::arithmetic::div_mod::lemma_div_multiples_vanish(n as int, w as int);
            }
            assert((hi_s - lo_s) * levels / (hi_s - lo_s) == levels);
        }
        levels - 1
    } else if lr <= ls && x <= ls - lr {
        proof {
            assert((lo_s - lo_s) * levels / (hi_s - lo_s) == 0);
        }
        0
    } else {
        let d = if x >= ls {
            (x - ls) + lr
        } else {
            lr - (ls - x)
        };
        assert(0 <= d < w);
        assert(d * n < w * n) by (nonlinear_arith)
            requires
                d < w,
                n >= 1,
                d >= 0,
        ;
        let raw = d * n / w;
        assert(raw < n) by (nonlinear_arith)
            requires
                raw == (d * n) / (w as int),
                d * n < w * n,
                w > 0,
        {
            vstd::arithmetic::div_mod::lemma_div_is_ordered(d * n, w * n - 1, w as int);
            vstd::arithmetic::div_mod::lemma_div_multiples_vanish(n as int, w as int);
            vstd::arithmetic::div_mod::lemma_div_is_ordered(w * n - 1, w * n, w as int);
            vstd::arithmetic::div_mod::lemma_fundamental_div_mod(w * n - 1, w as int);
        }
        proof {
            assert(lo_s < x < hi_s);
            assert((x - lo_s) * levels / (hi_s - lo_s) == raw);
        }
        raw as usize
    }
}

/// Builds a band of `+/- range` (a fraction, in units of `1 / SCALE`) around the
/// latest price, cut into `grid_levels` steps, and reports the last move of a
/// price between steps: `Buy` when it fell a step, `Sell` when it rose one.
pub fn grid_strategy(prices: &[u64], grid_levels: usize, range: u64) -> (r: Signal)
    requires
        grid_fits(prices@, grid_levels, range),
    ensures
        r == grid_spec(prices@, grid_levels, range),
{
    if prices.len() == 0 || grid_levels == 0 || range == 0 {
        return Signal::Hold;
    }
    let latest = prices[prices.len() - 1];
    if latest == 0 {
        return Signal::Hold;
    }
    let mut last_grid = grid_cell(prices[0], latest, grid_levels, range);
    let mut signal = Signal::Hold;
    let mut i: usize = 1;
    while i < prices.len()
        invariant
            1 <= i <= prices.len(),
            latest == prices@.last(),
            latest > 0,
            range > 0,
            grid_levels > 0,
            2 * latest * range * grid_levels <= u128::MAX,
            last_grid == grid_index(prices@[i - 1], latest, grid_levels as int, range),
            signal == grid_signal_upto(prices@, grid_levels as int, range, i as nat),
        decreases prices.len() - i,
    {
        let grid = grid_cell(prices[i], latest, grid_levels, range);
        if grid < last_grid {
            signal = Signal::Buy;
        } else if grid > last_grid {
            signal = Signal::Sell;
        }
        last_grid = grid;
        i = i + 1;
    }
    signal
}

/// Smallest price of a non-empty sequence.
pub open spec fn seq_min(s: Seq<u64>) -> int
    decreases s.len(),
{
    if s.len() <= 1 {
        s[0] as int
    } else if s.last() < seq_min(s.drop_last()) {
        s.last() as int
    } else {
        seq_min(s.drop_last())
    }
}

/// Largest price of a non-empty sequence.
pub open spec fn seq_max(s: Seq<u64>) -> int
    decreases s.len(),
{
    if s.len() <= 1 {
        s[0] as int
    } else if s.last() > seq_max(s.drop_last()) {
        s.last() as int
    } else {
        seq_max(s.drop_last())
    }
}

/// Cell of `price` when `[lo, hi]` is cut into `levels` steps; every price is
/// in cell 0 when the range is empty.
pub open spec fn range_index(price: u64, lo: int, hi: int, levels: int) -> int {
    if hi == lo {
        0
    } else {
        (price - lo) * levels / (hi - lo)
    }
}

/// Last change of cell among the first `n` prices, over the whole price range.
pub open spec fn range_signal_upto(prices: Seq<u64>, levels: int, n: nat) -> Signal
    decreases n,
{
    if n < 2 {
        Signal::Hold
    } else {
        let lo = seq_min(prices);
        let hi = seq_max(prices);
        let a = range_index(prices[n - 2], lo, hi, levels);
        let b = range_index(prices[n - 1], lo, hi, levels);
        if b < a {
            Signal::Buy
        } else if b > a {
            Signal::Sell
        } else {
            range_signal_upto(prices, levels, (n - 1) as nat)
        }
    }
}

/// Signal of the full-range grid: cells span the lowest to the highest price.
pub open spec fn full_range_grid_spec(prices: Seq<u64>, grid_size: usize) -> Signal {
    if prices.len() == 0 || grid_size == 0 {
        Signal::Hold
    } else {
        range_signal_upto(prices, grid_size as int, prices.len())
    }
}

/// Grid strategy over the full price range: the band runs from the lowest to the
/// highest price of the sequence instead of around the latest price.
pub fn _grid_strategy(prices: &[u64], grid_size: usize) -> (r: Signal)
    ensures
        r == full_range_grid_spec(prices@, grid_size),
{
    if prices.len() == 0 || grid_size == 0 {
        return Signal::Hold;
    }
    let mut min = prices[0];
    let mut max = prices[0];
    let mut k: usize = 1;
    while k < prices.len()
        invariant
            1 <= k <= prices.len(),
            min == seq_min(prices@.subrange(0, k as int)),
            max == seq_max(prices@.subrange(0, k as int)),
            forall|j: int| 0 <= j < k ==> min <= #[trigger] prices@[j] <= max,
        decreases prices.len() - k,
    {
        assert(prices@.subrange(0, k + 1).drop_last() =~= prices@.subrange(0, k as int));
        if prices[k] < min {
            min = prices[k];
        }
        if prices[k] > max {
            max = prices[k];
        }
        k = k + 1;
    }
    assert(prices@.subrange(0, prices@.len() as int) =~= prices@);
    let n = grid_size as u128;
    let mut last_grid = range_cell(prices[0], min, max, grid_size);
    let mut signal = Signal::Hold;
    let mut i: usize = 1;
    while i < prices.len()
        invariant
            1 <= i <= prices.len(),
            n == grid_size,
            min == seq_min(prices@),
            max == seq_max(prices@),
            forall|j: int| 0 <= j < prices@.len() ==> min <= #[trigger] prices@[j] <= max,
            last_grid == range_index(prices@[i - 1], min as int, max as int, grid_size as int),
            signal == range_signal_upto(prices@, grid_size as int, i as nat),
        decreases prices.len() - i,
    {
        let grid = range_cell(prices[i], min, max, grid_size);
        if grid < last_grid {
            signal = Signal::Buy;
        } else if grid > last_grid {
            signal = Signal::Sell;
        }
        last_grid = grid;
        i = i + 1;
    }
    signal
}

fn range_cell(price: u64, min: u64, max: u64, levels: usize) -> (r: u128)
    requires
        min <= price <= max,
    ensures
        r == range_index(price, min as int, max as int, levels as int),
{
    if max == min {
        0
    } else {
        mul_wide(price - min, levels as u64) / ((max - min) as u128)
    }
}

// ------------------------------------------------------------- EMA crossover

/// Sum of the first `n` elements.
pub open spec fn sum_prefix(s: Seq<u64>, n: nat) -> int
    decreases n,
{
    if n == 0 || n > s.len() {
        0
    } else {
        sum_prefix(s, (n - 1) as nat) + s[n - 1]
    }
}

/// First value of the moving average: the mean of the first `period` prices,
/// or the first price when there are fewer.
pub open spec fn ema_seed(data: Seq<u64>, period: nat) -> int {
    if data.len() >= period {
        sum_prefix(data, period) / (period as int)
    } else {
        data[0] as int
    }
}

/// One smoothing step with factor `2 / (period + 1)`; the change is rounded
/// toward zero.
pub open spec fn ema_step(prev: int, price: int, period: nat) -> int {
    if price >= prev {
        prev + (price - prev) * 2 / (period + 1) as int
    } else {
        prev - (prev - price) * 2 / (period + 1) as int
    }
}

/// The moving average at index `i`.
pub open spec fn ema_at(data: Seq<u64>, period: nat, i: nat) -> int
    decreases i,
{
    if i == 0 {
        ema_seed(data, period)
    } else {
        ema_step(ema_at(data, period, (i - 1) as nat), data[i as int] as int, period)
    }
}

/// Signal of one crossing: the short average moving above the long one buys,
/// moving below it sells.
pub open spec fn cross_signal(short_prev: int, long_prev: int, short_now: int, long_now: int) -> Signal {
    if short_prev <= long_prev && short_now > long_now {
        Signal::Buy
    } else if short_prev >= long_prev && short_now < long_now {
        Signal::Sell
    } else {
        Signal::Hold
    }
}

/// The crossover strategy's signal at the last price.
pub open spec fn ema_crossover_spec(prices: Seq<u64>, short: usize, long: usize) -> Signal {
    if prices.len() < long || short == 0 || long == 0 || short >= long {
        Signal::Hold
    } else {
        let n = prices.len();
        cross_signal(
            ema_at(prices, short as nat, (n - 2) as nat),
            ema_at(prices, long as nat, (n - 2) as nat),
            ema_at(prices, short as nat, (n - 1) as nat),
            ema_at(prices, long as nat, (n - 1) as nat),
        )
    }
}

proof fn lemma_ema_delta(x: int, period: int)
    requires
        x >= 0,
        period >= 1,
    ensures
        0 <= x * 2 / (period + 1) <= x,
{
    assert(x * 2 <= x * (period + 1)) by (nonlinear_arith)
        requires
            x >= 0,
            period >= 1,
    ;
    vstd::arithmetic::div_mod::lemma_div_is_ordered(x * 2, x * (period + 1), period + 1);
    vstd::arithmetic::div_mod::lemma_div_multiples_vanish(x, period + 1);
    vstd::arithmetic::div_mod::lemma_div_pos_is_pos(x * 2, period + 1);
}

/// Exponential moving average with factor `2 / (period + 1)`, one value per
/// price; empty when `data` is empty or `period` is zero.
pub fn ema(data: &[u64], period: usize) -> (r: Vec<u64>)
    ensures
        r@.len() == (if data@.len() == 0 || period == 0 { 0 } else { data@.len() }),
        forall|i: int| 0 <= i < r@.len() ==> r@[i] == ema_at(data@, period as nat, i as nat),
{
    if data.len() == 0 || period == 0 {
        return Vec::new();
    }
    let mut prev: u64;
    if data.len() >= period {
        let mut sum: u128 = 0;
        let mut j: usize = 0;
        while j < period
            invariant
                j <= period <= data.len(),
                sum == sum_prefix(data@, j as nat),
                sum <= j * 0xffff_ffff_ffff_ffffu128,
            decreases period - j,
        {
            sum = sum + data[j] as u128;
            j = j + 1;
        }
        let mean = sum / (period as u128);
        proof {
            let m: int = 0xffff_ffff_ffff_ffff;
            vstd::arithmetic::div_mod::lemma_div_is_ordered(sum as int, period * m, period as int);
            vstd::arithmetic::div_mod::lemma_div_multiples_vanish(m, period as int);
            assert(period * m == m * period) by (nonlinear_arith);
        }
        prev = mean as u64;
    } else {
        prev = data[0];
    }
    let mut result: Vec<u64> = Vec::new();
    result.push(prev);
    let mut i: usize = 1;
    while i < data.len()
        invariant
            1 <= i <= data.len(),
            period >= 1,
            result@.len() == i,
            prev == ema_at(data@, period as nat, (i - 1) as nat),
            forall|k: int| 0 <= k < i ==> result@[k] == ema_at(data@, period as nat, k as nat),
        decreases data.len() - i,
    {
        let p = data[i];
        let divisor = period as u128 + 1;
        if p >= prev {
            let delta = ((p - prev) as u128 * 2) / divisor;
            proof {
                lemma_ema_delta((p - prev) as int, period as int);
            }
            prev = prev + delta as u64;
        } else {
            let delta = ((prev - p) as u128 * 2) / divisor;
            proof {
                lemma_ema_delta((prev - p) as int, period as int);
            }
            prev = prev - delta as u64;
        }
        result.push(prev);
        i = i + 1;
    }
    result
}

/// Compares a short and a long moving average at the last two prices. Holds
/// when there are fewer prices than `long`, or unless `0 < short < long`.
pub fn ema_crossover_strategy(prices: &[u64], short: usize, long: usize) -> (r: Signal)
    ensures
        r == ema_crossover_spec(prices@, short, long),
        prices@.len() < long ==> r == Signal::Hold,
{
    if prices.len() < long || short == 0 || long == 0 || short >= long {
        return Signal::Hold;
    }
    let ema_short = ema(prices, short);
    let ema_long = ema(prices, long);
    let n = prices.len();
    let (s0, l0, s1, l1) = (ema_short[n - 2], ema_long[n - 2], ema_short[n - 1], ema_long[n - 1]);
    if s0 <= l0 && s1 > l1 {
        Signal::Buy
    } else if s0 >= l0 && s1 < l1 {
        Signal::Sell
    } else {
        Signal::Hold
    }
}

// ------------------------------------------------------------------------ RSI

/// Rise from `prices[i - 1]` to `prices[i]`, or zero.
pub open spec fn gain_at(prices: Seq<u64>, i: int) -> int {
    if prices[i] > prices[i - 1] {
        prices[i] - prices[i - 1]
    } else {
        0
    }
}

/// Fall from `prices[i - 1]` to `prices[i]`, or zero.
pub open spec fn loss_at(prices: Seq<u64>, i: int) -> int {
    if prices[i] > prices[i - 1] {
        0
    } else {
        prices[i - 1] - prices[i]
    }
}

/// Sum of the gains at indices `1..=n`.
pub open spec fn sum_gains(prices: Seq<u64>, n: nat) -> int
    decreases n,
{
    if n == 0 {
        0
    } else {
        sum_gains(prices, (n - 1) as nat) + gain_at(prices, n as int)
    }
}

/// Sum of the losses at indices `1..=n`.
pub open spec fn sum_losses(prices: Seq<u64>, n: nat) -> int
    decreases n,
{
    if n == 0 {
        0
    } else {
        sum_losses(prices, (n - 1) as nat) + loss_at(prices, n as int)
    }
}

/// Wilder's average gain at index `i >= period`.
pub open spec fn avg_gain_at(prices: Seq<u64>, period: nat, i: nat) -> int
    decreases i,
{
    if i <= period {
        sum_gains(prices, period) / (period as int)
    } else {
        (avg_gain_at(prices, period, (i - 1) as nat) * (period - 1) + gain_at(prices, i as int)) / (period as int)
    }
}

/// Wilder's average loss at index `i >= period`.
pub open spec fn avg_loss_at(prices: Seq<u64>, period: nat, i: nat) -> int
    decreases i,
{
    if i <= period {
        sum_losses(prices, period) / (period as int)
    } else {
        (avg_loss_at(prices, period, (i - 1) as nat) * (period - 1) + loss_at(prices, i as int)) / (period as int)
    }
}

/// `100 - 100 / (1 + gain / loss)`, that is `100 * gain / (gain + loss)`, in
/// units of `1 / SCALE`; 100 when there is no loss.
pub open spec fn rsi_value(avg_gain: int, avg_loss: int) -> int {
    if avg_loss == 0 {
        100 * scale()
    } else {
        100 * scale() * avg_gain / (avg_gain + avg_loss)
    }
}

/// The index at `i`: neutral (50) before index `period`, when the series is
/// too short, or when `period` is zero.
pub open spec fn rsi_at(prices: Seq<u64>, period: nat, i: nat) -> int {
    if period == 0 || prices.len() <= period || i < period {
        50 * scale()
    } else {
        rsi_value(avg_gain_at(prices, period, i), avg_loss_at(prices, period, i))
    }
}

/// Classification of one index value against the two thresholds.
pub open spec fn rsi_signal(value: int, oversold: u64, overbought: u64) -> Signal {
    if value < oversold {
        Signal::Buy
    } else if value > overbought {
        Signal::Sell
    } else {
        Signal::Hold
    }
}

/// The RSI strategy's signal at the last price.
pub open spec fn rsi_strategy_spec(prices: Seq<u64>, period: usize, oversold: u64, overbought: u64) -> Signal {
    if prices.len() == 0 || period == 0 {
        Signal::Hold
    } else {
        rsi_signal(rsi_at(prices, period as nat, (prices.len() - 1) as nat), oversold, overbought)
    }
}

proof fn lemma_avg_bounded(avg: int, step: int, period: int)
    requires
        0 <= avg <= 0xffff_ffff_ffff_ffff,
        0 <= step <= 0xffff_ffff_ffff_ffff,
        period >= 1,
    ensures
        0 <= avg * (period - 1) + step <= 0xffff_ffff_ffff_ffff * period,
        0 <= (avg * (period - 1) + step) / period <= 0xffff_ffff_ffff_ffff,
{
    let m: int = 0xffff_ffff_ffff_ffff;
    assert(0 <= avg * (period - 1) + step <= m * period) by (nonlinear_arith)
        requires
            0 <= avg <= m,
            0 <= step <= m,
            period >= 1,
    ;
    vstd::arithmetic::div_mod::lemma_div_is_ordered(avg * (period - 1) + step, m * period, period);
    vstd::arithmetic::div_mod::lemma_div_multiples_vanish(m, period);
    vstd::arithmetic::div_mod::lemma_div_pos_is_pos(avg * (period - 1) + step, period);
}

fn rsi_of(avg_gain: u128, avg_loss: u128) -> (r: u64)
    requires
        avg_gain <= 0xffff_ffff_ffff_ffff,
        avg_loss <= 0xffff_ffff_ffff_ffff,
    ensures
        r == rsi_value(avg_gain as int, avg_loss as int),
{
    if avg_loss == 0 {
        (PERCENT_SCALE as u64)
    } else {
        let q = (PERCENT_SCALE * avg_gain) / (avg_gain + avg_loss);
        assert(q <= PERCENT_SCALE) by (nonlinear_arith)
            requires
                q == (10_000_000_000 * avg_gain) / (avg_gain + avg_loss),
                avg_loss >= 1,
                avg_gain >= 0,
        {
            vstd::arithmetic::div_mod::lemma_div_is_ordered(
                10_000_000_000 * avg_gain,
                10_000_000_000 * (avg_gain + avg_loss),
                (avg_gain + avg_loss) as int,
            );
            vstd::arithmetic::div_mod::lemma_div_multiples_vanish(10_000_000_000, (avg_gain + avg_loss) as int);
        }
        q as u64
    }
}

/// Relative strength index of every price, in units of `1 / SCALE`
/// (`100 * SCALE` is 100), with Wilder smoothing over `period`.
pub fn rsi(prices: &[u64], period: usize) -> (r: Vec<u64>)
    ensures
        r@.len() == prices@.len(),
        forall|i: int| 0 <= i < r@.len() ==> r@[i] == rsi_at(prices@, period as nat, i as nat),
{
    let neutral: u64 = 50 * SCALE;
    let mut rsis: Vec<u64> = Vec::new();
    let mut k: usize = 0;
    while k < prices.len()
        invariant
            k <= prices.len(),
            rsis@.len() == k,
            forall|j: int| 0 <= j < k ==> rsis@[j] == neutral,
        decreases prices.len() - k,
    {
        rsis.push(neutral);
        k = k + 1;
    }
    if prices.len() <= period || period == 0 {
        return rsis;
    }
    let mut gains: u128 = 0;
    let mut losses: u128 = 0;
    let mut i: usize = 1;
    while i <= period
        invariant
            1 <= i <= period + 1,
            period < prices.len(),
            gains == sum_gains(prices@, (i - 1) as nat),
            losses == sum_losses(prices@, (i - 1) as nat),
            gains <= (i - 1) * 0xffff_ffff_ffff_ffffu128,
            losses <= (i - 1) * 0xffff_ffff_ffff_ffffu128,
        decreases period + 1 - i,
    {
        if prices[i] > prices[i - 1] {
            gains = gains + (prices[i] - prices[i - 1]) as u128;
        } else {
            losses = losses + (prices[i - 1] - prices[i]) as u128;
        }
        i = i + 1;
    }
    let n = period as u128;
    let mut avg_gain = gains / n;
    let mut avg_loss = losses / n;
    proof {
        let m: int = 0xffff_ffff_ffff_ffff;
        assert(period * m == m * period) by (nonlinear_arith);
        vstd::arithmetic::div_mod::lemma_div_is_ordered(gains as int, m * period, period as int);
        vstd::arithmetic::div_mod::lemma_div_is_ordered(losses as int, m * period, period as int);
        vstd::arithmetic::div_mod::lemma_div_multiples_vanish(m, period as int);
    }
    rsis.set(period, rsi_of(avg_gain, avg_loss));
    let mut i: usize = period + 1;
    while i < prices.len()
        invariant
            period + 1 <= i <= prices.len(),
            period >= 1,
            n == period,
            rsis@.len() == prices@.len(),
            avg_gain == avg_gain_at(prices@, period as nat, (i - 1) as nat),
            avg_loss == avg_loss_at(prices@, period as nat, (i - 1) as nat),
            avg_gain <= 0xffff_ffff_ffff_ffff,
            avg_loss <= 0xffff_ffff_ffff_ffff,
            forall|j: int| 0 <= j < period ==> rsis@[j] == neutral,
            forall|j: int| period <= j < i ==> rsis@[j] == rsi_at(prices@, period as nat, j as nat),
            forall|j: int| i <= j < prices@.len() ==> rsis@[j] == neutral,
        decreases prices.len() - i,
    {
        let (g, l) = if prices[i] > prices[i - 1] {
            ((prices[i] - prices[i - 1]) as u128, 0u128)
        } else {
            (0u128, (prices[i - 1] - prices[i]) as u128)
        };
        proof {
            lemma_avg_bounded(avg_gain as int, g as int, period as int);
            lemma_avg_bounded(avg_loss as int, l as int, period as int);
        }
        avg_gain = (avg_gain * (n - 1) + g) / n;
        avg_loss = (avg_loss * (n - 1) + l) / n;
        rsis.set(i, rsi_of(avg_gain, avg_loss));
        i = i + 1;
    }
    rsis
}

proof fn lemma_no_losses(prices: Seq<u64>, k: nat)
    requires
        k < prices.len(),
        forall|i: int| 1 <= i <= k ==> #[trigger] prices[i] > prices[i - 1],
    ensures
        sum_losses(prices, k) == 0,
        sum_gains(prices, k) >= k,
    decreases k,
{
    if k > 0 {
        lemma_no_losses(prices, (k - 1) as nat);
        assert(prices[k as int] > prices[k - 1]);
    }
}

proof fn lemma_no_gains(prices: Seq<u64>, k: nat)
    requires
        k < prices.len(),
        forall|i: int| 1 <= i <= k ==> #[trigger] prices[i] < prices[i - 1],
    ensures
        sum_gains(prices, k) == 0,
        sum_losses(prices, k) >= k,
    decreases k,
{
    if k > 0 {
        lemma_no_gains(prices, (k - 1) as nat);
        assert(prices[k as int] < prices[k - 1]);
    }
}

/// When the price rises at every step up to index `period`, the index there is
/// 100: the average loss is zero.
pub proof fn lemma_rsi_all_gains(prices: Seq<u64>, period: nat)
    requires
        period >= 1,
        prices.len() > period,
        forall|i: int| 1 <= i <= period ==> #[trigger] prices[i] > prices[i - 1],
    ensures
        rsi_at(prices, period, period) == 100 * scale(),
{
    lemma_no_losses(prices, period);
    assert(avg_loss_at(prices, period, period) == 0);
}

/// When the price falls at every step up to index `period`, the index there
/// is 0: the average gain is zero and the average loss positive.
pub proof fn lemma_rsi_all_losses(prices: Seq<u64>, period: nat)
    requires
        period >= 1,
        prices.len() > period,
        forall|i: int| 1 <= i <= period ==> #[trigger] prices[i] < prices[i - 1],
    ensures
        rsi_at(prices, period, period) == 0,
{
    lemma_no_gains(prices, period);
    let l = sum_losses(prices, period);
    assert(avg_gain_at(prices, period, period) == 0);
    assert(l / (period as int) >= 1) by {
        vstd::arithmetic::div_mod::lemma_div_is_ordered(period as int, l, period as int);
        vstd::arithmetic::div_mod::lemma_div_by_self(period as int);
    }
    assert(100 * scale() * 0 == 0) by (nonlinear_arith);
}

/// Classifies the last index value: below `oversold` buys, above `overbought`
/// sells (both in units of `1 / SCALE`). Holds on an empty sequence or a zero
/// period.
pub fn rsi_strategy(prices: &[u64], period: usize, oversold: u64, overbought: u64) -> (r: Signal)
    ensures
        r == rsi_strategy_spec(prices@, period, oversold, overbought),
{
    if prices.len() == 0 || period == 0 {
        return Signal::Hold;
    }
    let rsi_vals = rsi(prices, period);
    let last = rsi_vals[prices.len() - 1];
    if last < oversold {
        Signal::Buy
    } else if last > overbought {
        Signal::Sell
    } else {
        Signal::Hold
    }
}

// ---------------------------------------------------------------- buy the dip

/// The move from `prices[i - 1]` to `prices[i]` is a drop of at least `dip_pct`
/// percent (`dip_pct` in units of `1 / SCALE` percent).
pub open spec fn is_dip(prices: Seq<u64>, i: int, dip_pct: u64) -> bool {
    &&& prices[i - 1] > 0
    &&& prices[i] < prices[i - 1]
    &&& (prices[i - 1] - prices[i]) * 100 * scale() >= dip_pct * prices[i - 1]
}

/// Buy when any day-over-day drop reaches the threshold, else hold.
pub open spec fn buy_the_dip_spec(prices: Seq<u64>, dip_pct: u64) -> Signal {
    if prices.len() < 2 || dip_pct == 0 {
        Signal::Hold
    } else if exists|i: int| 1 <= i < prices.len() && #[trigger] is_dip(prices, i, dip_pct) {
        Signal::Buy
    } else {
        Signal::Hold
    }
}

/// Scans consecutive percentage drops; any drop of `dip_pct` percent or more
/// yields `Buy`. Never yields `Sell`.
pub fn buy_the_dip_strategy(prices: &[u64], dip_pct: u64) -> (r: Signal)
    ensures
        r == buy_the_dip_spec(prices@, dip_pct),
        r != Signal::Sell,
{
    if prices.len() < 2 || dip_pct == 0 {
        return Signal::Hold;
    }
    let mut signal = Signal::Hold;
    let mut i: usize = 1;
    while i < prices.len()
        invariant
            1 <= i <= prices.len(),
            dip_pct > 0,
            signal == Signal::Buy <==> exists|j: int| 1 <= j < i && #[trigger] is_dip(prices@, j, dip_pct),
            signal == Signal::Buy || signal == Signal::Hold,
        decreases prices.len() - i,
    {
        let prev = prices[i - 1];
        let cur = prices[i];
        let mut hit = false;
        if prev > 0 && cur < prev {
            let drop = ((prev - cur) as u128) * PERCENT_SCALE;
            let bar = mul_wide(dip_pct, prev);
            hit = drop >= bar;
        }
        assert(hit == is_dip(prices@, i as int, dip_pct));
        if hit {
            signal = Signal::Buy;
        }
        assert forall|j: int| 1 <= j < i + 1 && #[trigger] is_dip(prices@, j, dip_pct) implies j < i || hit by {}
        assert(hit ==> exists|j: int| 1 <= j < i + 1 && #[trigger] is_dip(prices@, j, dip_pct));
        i = i + 1;
    }
    signal
}

// ---------------------------------------------------- partial take-profit/buyback

/// `price` has risen to `entry * (1 + tp_pct / 100)` or above.
pub open spec fn reached_take_profit(entry: u64, price: u64, tp_pct: u64) -> bool {
    price * 100 * scale() >= entry * (100 * scale() + tp_pct)
}

/// `price` has fallen to `entry * (1 - buyback_pct / 100)` or below.
pub open spec fn reached_buyback(entry: u64, price: u64, buyback_pct: u64) -> bool {
    price * 100 * scale() <= entry * (100 * scale() - buyback_pct)
}

/// Entry price and last signal after the first `n` prices (`n >= 1`).
pub open spec fn take_profit_state(prices: Seq<u64>, tp_pct: u64, buyback_pct: u64, n: nat) -> (u64, Signal)
    decreases n,
{
    if n <= 1 {
        (prices[0], Signal::Hold)
    } else {
        let entry = take_profit_state(prices, tp_pct, buyback_pct, (n - 1) as nat).0;
        let price = prices[n - 1];
        if reached_take_profit(entry, price, tp_pct) {
            (price, Signal::Sell)
        } else if reached_buyback(entry, price, buyback_pct) {
            (price, Signal::Buy)
        } else {
            (entry, Signal::Hold)
        }
    }
}

/// The signal of the take-profit/buyback strategy on the whole sequence.
pub open spec fn take_profit_spec(prices: Seq<u64>, tp_pct: u64, buyback_pct: u64) -> Signal {
    if prices.len() == 0 {
        Signal::Hold
    } else {
        take_profit_state(prices, tp_pct, buyback_pct, prices.len()).1
    }
}

/// Follows a floating entry price, starting at the first price: a rise of
/// `tp_pct` percent over it sells, a fall of `buyback_pct` percent buys, and
/// either resets the entry to the current price. Returns the last step's
/// signal; holds on an empty sequence.
pub fn partial_take_profit_strategy(prices: &[u64], tp_pct: u64, buyback_pct: u64) -> (r: Signal)
    ensures
        r == take_profit_spec(prices@, tp_pct, buyback_pct),
{
    if prices.len() == 0 {
        return Signal::Hold;
    }
    let mut entry = prices[0];
    let mut signal = Signal::Hold;
    let mut i: usize = 1;
    while i < prices.len()
        invariant
            1 <= i <= prices.len(),
            (entry, signal) == take_profit_state(prices@, tp_pct, buyback_pct, i as nat),
        decreases prices.len() - i,
    {
        let price = prices[i];
        // price * 100 * S >= entry * (100 * S + tp)  <=>  (price - entry) * 100 * S >= entry * tp
        let take = price >= entry && ((price - entry) as u128) * PERCENT_SCALE >= mul_wide(entry, tp_pct);
        // price * 100 * S <= entry * (100 * S - bb)  <=>  (entry - price) * 100 * S >= entry * bb
        let back = price <= entry && ((entry - price) as u128) * PERCENT_SCALE >= mul_wide(entry, buyback_pct);
        assert(take == reached_take_profit(entry, price, tp_pct)) by (nonlinear_arith)
            requires
                take == (price >= entry && (price - entry) * 10_000_000_000int >= entry * tp_pct),
                scale() == 100_000_000,
        ;
        assert(back == reached_buyback(entry, price, buyback_pct)) by (nonlinear_arith)
            requires
                back == (price <= entry && (entry - price) * 10_000_000_000int >= entry * buyback_pct),
                scale() == 100_000_000,
        ;
        if take {
            signal = Signal::Sell;
            entry = price;
        } else if back {
            signal = Signal::Buy;
            entry = price;
        } else {
            signal = Signal::Hold;
        }
        i = i + 1;
    }
    signal
}


// ------------------------------------------------------------ all strategies

/// Why no signals could be produced.
#[derive(Debug, Clone, Copy, PartialEq, Eq, Structural)]
pub enum SignalError {
    /// The price history is empty.
    NoHistoricalData,
    /// The grid band of the latest price does not fit in 128-bit arithmetic.
    GridOutOfRange,
}

/// Whether the grid strategy is to be computed.
pub open spec fn grid_wanted(cfg: &Config, weights: StrategyWeights) -> bool {
    cfg.strategy == Strategy::Grid || weights.grid > 0
}

/// The opinion of each strategy that is active or has a positive weight.
pub open spec fn signals_spec(cfg: &Config, historical: Seq<u64>, weights: StrategyWeights) -> Signals {
    Signals {
        ema: if cfg.strategy == Strategy::Ema || weights.ema > 0 {
            Some(ema_crossover_spec(historical, cfg.ema_short, cfg.ema_long))
        } else {
            None
        },
        rsi: if cfg.strategy == Strategy::Rsi || weights.rsi > 0 {
            Some(rsi_strategy_spec(historical, cfg.rsi_period, cfg.rsi_oversold, cfg.rsi_overbought))
        } else {
            None
        },
        grid: if grid_wanted(cfg, weights) {
            Some(grid_spec(historical, cfg.grid_levels, cfg.grid_range))
        } else {
            None
        },
        buy_dip: if cfg.strategy == Strategy::BuyDip || weights.buy_dip > 0 {
            Some(buy_the_dip_spec(historical, cfg.dip_pct))
        } else {
            None
        },
        tp_o_bb: if cfg.strategy == Strategy::TpOBb || weights.tp_or_bb > 0 {
            Some(take_profit_spec(historical, cfg.tp_pct, cfg.buyback_pct))
        } else {
            None
        },
    }
}

/// Whether `grid_strategy` can run on these inputs.
pub fn grid_in_range(prices: &[u64], grid_levels: usize, range: u64) -> (r: bool)
    ensures
        r == grid_fits(prices@, grid_levels, range),
{
    if prices.len() == 0 {
        return true;
    }
    let lr = mul_wide(prices[prices.len() - 1], range);
    match lr.checked_mul(grid_levels as u128) {
        Some(v) => {
            proof {
                assert(2 * prices@.last() * range * grid_levels == 2 * (lr * grid_levels)) by (nonlinear_arith)
                    requires
                        lr == prices@.last() * range,
                ;
            }
            v.checked_mul(2).is_some()
        },
        None => {
            proof {
                assert(2 * prices@.last() * range * grid_levels >= lr * grid_levels) by (nonlinear_arith)
                    requires
                        lr == prices@.last() * range,
                        lr >= 0,
                        grid_levels >= 0,
                ;
            }
            false
        },
    }
}

/// Runs each strategy that is the active one or has a positive weight.
pub fn generate_signals(cfg: &Config, historical: &[u64], weights: StrategyWeights) -> (r: Result<Signals, SignalError>)
    ensures
        historical@.len() == 0 ==> r == Err::<Signals, SignalError>(SignalError::NoHistoricalData),
        historical@.len() > 0 && grid_wanted(cfg, weights) && !grid_fits(historical@, cfg.grid_levels, cfg.grid_range)
            ==> r == Err::<Signals, SignalError>(SignalError::GridOutOfRange),
        historical@.len() > 0 && (grid_wanted(cfg, weights) ==> grid_fits(historical@, cfg.grid_levels, cfg.grid_range))
            ==> r == Ok::<Signals, SignalError>(signals_spec(cfg, historical@, weights)),
{
    if historical.len() == 0 {
        return Err(SignalError::NoHistoricalData);
    }
    let want_grid = cfg.strategy == Strategy::Grid || weights.grid > 0;
    if want_grid && !grid_in_range(historical, cfg.grid_levels, cfg.grid_range) {
        return Err(SignalError::GridOutOfRange);
    }
    let ema_signal = if cfg.strategy == Strategy::Ema || weights.ema > 0 {
        Some(ema_crossover_strategy(historical, cfg.ema_short, cfg.ema_long))
    } else {
        None
    };
    let rsi_signal = if cfg.strategy == Strategy::Rsi || weights.rsi > 0 {
        Some(rsi_strategy(historical, cfg.rsi_period, cfg.rsi_oversold, cfg.rsi_overbought))
    } else {
        None
    };
    let grid_signal = if want_grid {
        Some(grid_strategy(historical, cfg.grid_levels, cfg.grid_range))
    } else {
        None
    };
    let buy_dip_signal = if cfg.strategy == Strategy::BuyDip || weights.buy_dip > 0 {
        Some(buy_the_dip_strategy(historical, cfg.dip_pct))
    } else {
        None
    };
    let take_profit_signal = if cfg.strategy == Strategy::TpOBb || weights.tp_or_bb > 0 {
        Some(partial_take_profit_strategy(historical, cfg.tp_pct, cfg.buyback_pct))
    } else {
        None
    };
    Ok(Signals {
        ema: ema_signal,
        rsi: rsi_signal,
        grid: grid_signal,
        buy_dip: buy_dip_signal,
        tp_o_bb: take_profit_signal,
    })
}

} // verus!
