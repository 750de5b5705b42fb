//! Settings of a run. Fractions, percentages, rates, weights and amounts are
//! fixed-point values in units of `1 / SCALE` (see `fixed`).
use vstd::prelude::*;
use crate::coin::Coin;
use crate::logger::LogLevel;
use crate::strategy::Strategy;

verus! {

/// How performance fees are assessed.
#[derive(Debug, Clone, Copy, PartialEq, Eq, Structural)]
pub enum PerfFeeMode {
    /// Fee on the gain above the balance at the previous assessment.
    HighWaterMark,
    /// Fee on the whole gain since the start, less what was already charged.
    Cumulative,
}

/// Every recognised option of a run.
#[derive(Debug)]
pub struct Config {
    pub log_level: LogLevel,
    pub coin: Coin,
    /// Days of price history per cycle.
    pub period: u32,
    pub initial_btc: i64,
    /// Starting USD; a negative value means the worth of `initial_btc`.
    pub initial_usd: i64,
    /// Fraction of the balance committed to one order.
    pub allocation: u64,
    pub take_profit_btc: u64,
    pub stop_lose_btc: u64,
    pub take_profit_usd: u64,
    pub stop_lose_usd: u64,
    pub strategy: Strategy,
    pub use_fear_index: bool,
    pub ema_short: usize,
    pub ema_long: usize,
    pub rsi_period: usize,
    /// Threshold on the index (`100 * SCALE` is 100) below which RSI buys.
    pub rsi_oversold: u64,
    /// Threshold on the index above which RSI sells.
    pub rsi_overbought: u64,
    pub grid_levels: usize,
    /// Half-width of the grid band, as a fraction of the latest price.
    pub grid_range: u64,
    /// Percentage drop that makes buy-the-dip buy.
    pub dip_pct: u64,
    /// Percentage rise over the entry that takes profit.
    pub tp_pct: u64,
    /// Percentage fall under the entry that buys back.
    pub buyback_pct: u64,
    pub weight_ema: u64,
    pub weight_rsi: u64,
    pub weight_grid: u64,
    pub weight_buy_dip: u64,
    pub weight_tp_o_bb: u64,
    /// Normalised score that consensus must exceed to buy or sell.
    pub signal_threshold: u64,
    pub perf_fee_cycles: u32,
    pub perf_fee_rate: u64,
    pub perf_fee_mode: PerfFeeMode,
    pub deduct_fee_from_balance: bool,
    pub cex: String,
    pub cex_api_passphrase: String,
    pub cex_api_secret: String,
    pub cex_api_key: String,
    pub simulate_file: String,
    pub simulate_day: u32,
    pub simulate_cycles: u32,
    pub telegram_channel_id: i64,
    pub is_simulation: bool,
}

impl Config {
    /// Whether the run replays recorded prices instead of trading.
    pub fn is_simulation(&self) -> (r: bool)
        ensures
            r == self.is_simulation,
    {
        self.is_simulation
    }
}

} // verus!
