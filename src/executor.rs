//! Consensus of the strategies' opinions, and the execution controller: which
//! order a decision leads to, and what an executed order does to the balance.
//!
//! Placing the order is left to the caller; `plan_execution` says what to
//! place and `apply_fill` books what the exchange reported.
use vstd::prelude::*;
use crate::balance::{stop_tripped, Balance};
use crate::config::Config;
use crate::fixed::{div_floor_i128, scale, SCALE};
use crate::order::{OrderResponse, Side};
use crate::signal::{Signal, Signals};
use crate::strategy::{
    buy_the_dip_spec, ema_crossover_spec, grid_spec, rsi_strategy_spec, signals_spec, take_profit_spec, Strategy,
    StrategyWeights,
};

verus! {

/// Weight an opinion adds to the total: its weight when present.
pub open spec fn weight_of(sig: Option<Signal>, weight: u64) -> int {
    if sig is Some {
        weight as int
    } else {
        0
    }
}

/// Weight an opinion adds to the score: `+weight` to buy, `-weight` to sell.
pub open spec fn score_of(sig: Option<Signal>, weight: u64) -> int {
    match sig {
        Some(Signal::Buy) => weight as int,
        Some(Signal::Sell) => -weight,
        _ => 0,
    }
}

/// Total weight of the present opinions.
pub open spec fn total_weight(cfg: &Config, s: Signals) -> int {
    weight_of(s.ema, cfg.weight_ema) + weight_of(s.rsi, cfg.weight_rsi) + weight_of(s.grid, cfg.weight_grid)
        + weight_of(s.buy_dip, cfg.weight_buy_dip) + weight_of(s.tp_o_bb, cfg.weight_tp_o_bb)
}

/// Weighted score of the present opinions.
pub open spec fn total_score(cfg: &Config, s: Signals) -> int {
    score_of(s.ema, cfg.weight_ema) + score_of(s.rsi, cfg.weight_rsi) + score_of(s.grid, cfg.weight_grid)
        + score_of(s.buy_dip, cfg.weight_buy_dip) + score_of(s.tp_o_bb, cfg.weight_tp_o_bb)
}

/// Consensus: `score / total` above the threshold buys, below its negation
/// sells (both strictly); no weight at all holds.
pub open spec fn combined_spec(cfg: &Config, s: Signals) -> Signal {
    let total = total_weight(cfg, s);
    let score = total_score(cfg, s);
    if total == 0 {
        Signal::Hold
    } else if score * scale() > cfg.signal_threshold * total {
        Signal::Buy
    } else if score * scale() < -(cfg.signal_threshold * total) {
        Signal::Sell
    } else {
        Signal::Hold
    }
}

/// The active strategy has an opinion to act on.
pub open spec fn active_present(cfg: &Config, s: Signals) -> bool {
    match cfg.strategy {
        Strategy::Ema => s.ema is Some,
        Strategy::Rsi => s.rsi is Some,
        Strategy::Grid => s.grid is Some,
        Strategy::BuyDip => s.buy_dip is Some,
        Strategy::TpOBb => s.tp_o_bb is Some,
        Strategy::Combined => true,
    }
}

/// Whether the active strategy has an opinion to act on.
pub fn signal_ready(cfg: &Config, signals: &Signals) -> (r: bool)
    ensures
        r == active_present(cfg, *signals),
{
    match cfg.strategy {
        Strategy::Ema => signals.ema.is_some(),
        Strategy::Rsi => signals.rsi.is_some(),
        Strategy::Grid => signals.grid.is_some(),
        Strategy::BuyDip => signals.buy_dip.is_some(),
        Strategy::TpOBb => signals.tp_o_bb.is_some(),
        Strategy::Combined => true,
    }
}

/// The decision of a cycle: the active strategy's opinion, or the consensus.
pub open spec fn decision_spec(cfg: &Config, s: Signals) -> Signal {
    match cfg.strategy {
        Strategy::Ema => s.ema->0,
        Strategy::Rsi => s.rsi->0,
        Strategy::Grid => s.grid->0,
        Strategy::BuyDip => s.buy_dip->0,
        Strategy::TpOBb => s.tp_o_bb->0,
        Strategy::Combined => combined_spec(cfg, s),
    }
}

fn add_opinion(sig: Option<Signal>, weight: u64, total: u128, score: i128) -> (r: (u128, i128))
    requires
        total <= 4 * 0xffff_ffff_ffff_ffffu128,
        -total <= score <= total,
    ensures
        r.0 == total + weight_of(sig, weight),
        r.1 == score + score_of(sig, weight),
        -r.0 <= r.1 <= r.0,
{
    match sig {
        Some(Signal::Buy) => (total + weight as u128, score + weight as i128),
        Some(Signal::Sell) => (total + weight as u128, score - weight as i128),
        Some(Signal::Hold) => (total + weight as u128, score),
        None => (total, score),
    }
}

/// Weighted consensus of the present opinions, with the weights and the
/// threshold of `cfg`.
pub fn combined(cfg: &Config, signals: Signals) -> (r: Signal)
    ensures
        r == combined_spec(cfg, signals),
{
    let (total, score) = add_opinion(signals.ema, cfg.weight_ema, 0, 0);
    let (total, score) = add_opinion(signals.rsi, cfg.weight_rsi, total, score);
    let (total, score) = add_opinion(signals.grid, cfg.weight_grid, total, score);
    let (total, score) = add_opinion(signals.buy_dip, cfg.weight_buy_dip, total, score);
    let (total, score) = add_opinion(signals.tp_o_bb, cfg.weight_tp_o_bb, total, score);
    assert(total == total_weight(cfg, signals) && score == total_score(cfg, signals));
    let threshold = cfg.signal_threshold;
    if total == 0 {
        return Signal::Hold;
    }
    if threshold >= SCALE {
        // |score / total| <= 1 <= threshold: neither strict bound can be passed.
        assert(score * scale() <= threshold * total && score * scale() >= -(threshold * total)) by (nonlinear_arith)
            requires
                -total <= score <= total,
                threshold >= scale(),
                scale() > 0,
                total > 0,
        ;
        return Signal::Hold;
    }
    assert(-(total as int) <= score <= total <= 5 * 0xffff_ffff_ffff_ffffu128);
    assert(-0x1_0000_0000_0000_0000_0000_0000 < score * 100_000_000 < 0x1_0000_0000_0000_0000_0000_0000) by (nonlinear_arith)
        requires
            -(total as int) <= score <= total,
            total <= 5 * 0xffff_ffff_ffff_ffffu128,
    ;
    let lhs = score * 100_000_000i128;
    assert(threshold * total < 0x1_0000_0000 * 5 * 0x1_0000_0000_0000_0000) by (nonlinear_arith)
        requires
            threshold < 100_000_000,
            total <= 5 * 0xffff_ffff_ffff_ffffu128,
    ;
    let rhs = (threshold as u128 * total) as i128;
    if lhs > rhs {
        Signal::Buy
    } else if lhs < -rhs {
        Signal::Sell
    } else {
        Signal::Hold
    }
}

/// With every weight zero the consensus holds, whatever the opinions.
pub proof fn lemma_zero_weights_hold(cfg: &Config, s: Signals)
    requires
        cfg.weight_ema == 0,
        cfg.weight_rsi == 0,
        cfg.weight_grid == 0,
        cfg.weight_buy_dip == 0,
        cfg.weight_tp_o_bb == 0,
    ensures
        combined_spec(cfg, s) == Signal::Hold,
{
}

/// The weights that `cfg` configures.
pub open spec fn config_weights(cfg: &Config) -> StrategyWeights {
    StrategyWeights {
        ema: cfg.weight_ema,
        rsi: cfg.weight_rsi,
        grid: cfg.weight_grid,
        buy_dip: cfg.weight_buy_dip,
        tp_or_bb: cfg.weight_tp_o_bb,
    }
}

/// The opinion of strategy `which` on `historical` under the settings of `cfg`.
pub open spec fn strategy_signal(cfg: &Config, historical: Seq<u64>, which: Strategy) -> Signal {
    match which {
        Strategy::Ema => ema_crossover_spec(historical, cfg.ema_short, cfg.ema_long),
        Strategy::Rsi => rsi_strategy_spec(historical, cfg.rsi_period, cfg.rsi_oversold, cfg.rsi_overbought),
        Strategy::Grid => grid_spec(historical, cfg.grid_levels, cfg.grid_range),
        Strategy::BuyDip => buy_the_dip_spec(historical, cfg.dip_pct),
        Strategy::TpOBb => take_profit_spec(historical, cfg.tp_pct, cfg.buyback_pct),
        Strategy::Combined => Signal::Hold,
    }
}

/// Only strategy `which` has a non-zero weight in `cfg`.
pub open spec fn only_weight(cfg: &Config, which: Strategy) -> bool {
    &&& (cfg.weight_ema > 0 <==> which == Strategy::Ema)
    &&& (cfg.weight_rsi > 0 <==> which == Strategy::Rsi)
    &&& (cfg.weight_grid > 0 <==> which == Strategy::Grid)
    &&& (cfg.weight_buy_dip > 0 <==> which == Strategy::BuyDip)
    &&& (cfg.weight_tp_o_bb > 0 <==> which == Strategy::TpOBb)
}

/// Generating the signals and taking the consensus, with a single non-zero
/// weight and a threshold below one, decides what that one strategy says.
pub proof fn lemma_single_weight_consensus(cfg: &Config, historical: Seq<u64>, which: Strategy)
    requires
        cfg.strategy == Strategy::Combined,
        which != Strategy::Combined,
        only_weight(cfg, which),
        cfg.signal_threshold < SCALE,
    ensures
        combined_spec(cfg, signals_spec(cfg, historical, config_weights(cfg))) == strategy_signal(cfg, historical, which),
        decision_spec(cfg, signals_spec(cfg, historical, config_weights(cfg))) == strategy_signal(cfg, historical, which),
{
    let s = signals_spec(cfg, historical, config_weights(cfg));
    let w: int = match which {
        Strategy::Ema => cfg.weight_ema as int,
        Strategy::Rsi => cfg.weight_rsi as int,
        Strategy::Grid => cfg.weight_grid as int,
        Strategy::BuyDip => cfg.weight_buy_dip as int,
        _ => cfg.weight_tp_o_bb as int,
    };
    let sig = strategy_signal(cfg, historical, which);
    let t = cfg.signal_threshold as int;
    assert(w > 0);
    assert(total_weight(cfg, s) == w);
    assert(total_score(cfg, s) == match sig {
        Signal::Buy => w,
        Signal::Sell => -w,
        Signal::Hold => 0,
    });
    assert(w * scale() > t * w && -w * scale() < -(t * w)) by (nonlinear_arith)
        requires
            w > 0,
            0 <= t < scale(),
    ;
    assert(0 * scale() <= t * w && 0 * scale() >= -(t * w)) by (nonlinear_arith)
        requires
            w > 0,
            0 <= t,
    ;
}

/// The decision of a cycle: the active strategy's own opinion, or the
/// consensus when the active strategy is `Combined`.
pub fn decide(cfg: &Config, signals: Signals) -> (r: Signal)
    requires
        active_present(cfg, signals),
    ensures
        r == decision_spec(cfg, signals),
{
    match cfg.strategy {
        Strategy::Ema => signals.ema.unwrap(),
        Strategy::Rsi => signals.rsi.unwrap(),
        Strategy::Grid => signals.grid.unwrap(),
        Strategy::BuyDip => signals.buy_dip.unwrap(),
        Strategy::TpOBb => signals.tp_o_bb.unwrap(),
        Strategy::Combined => combined(cfg, signals),
    }
}

/// Order size: `btc * allocation` when that product is positive, otherwise
/// `usd / price * allocation`; the chosen amount is rounded down, in units of
/// `1 / SCALE` coin.
pub open spec fn order_amount_spec(btc: i64, usd: i64, price: u64, allocation: u64) -> int {
    if btc * allocation > 0 {
        btc * allocation / scale()
    } else {
        usd * allocation / (price as int)
    }
}

fn mul_i64_u64(a: i64, b: u64) -> (r: i128)
    ensures
        r == a * b,
{
    assert(-0x8000_0000_0000_0000 * 0xffff_ffff_ffff_ffff <= a * b <= 0x7fff_ffff_ffff_ffff * 0xffff_ffff_ffff_ffff) by (nonlinear_arith)
        requires
            -0x8000_0000_0000_0000 <= a <= 0x7fff_ffff_ffff_ffff,
            0 <= b <= 0xffff_ffff_ffff_ffff,
    ;
    a as i128 * b as i128
}

/// Size of the order for `balance` at `price`; see `order_amount_spec`.
pub fn order_amount(balance: &Balance, price: u64, allocation: u64) -> (r: i128)
    requires
        price > 0,
    ensures
        r == order_amount_spec(balance.btc_balance, balance.usd_balance, price, allocation),
{
    let btc_share = mul_i64_u64(balance.btc_balance, allocation);
    if btc_share > 0 {
        div_floor_i128(btc_share, SCALE as u128)
    } else {
        div_floor_i128(mul_i64_u64(balance.usd_balance, allocation), price as u128)
    }
}

/// What the controller does in a cycle.
#[derive(Debug, Clone, Copy, PartialEq, Eq, Structural)]
pub enum Execution {
    /// The decision is to hold.
    Idle,
    /// The stop-loss suppressed the order; nothing is placed.
    Blocked { side: Side, amount: i128 },
    /// Place a market order of `amount` at `price` as execution hint.
    Place { side: Side, amount: i128, price: u64 },
}

/// The controller's action for a decision: a buy is suppressed when the USD
/// balance has tripped its stop-loss, a sell when the coin balance has.
pub open spec fn execution_spec(cfg: &Config, price: u64, signals: Signals, balance: Balance) -> Execution {
    let amount = order_amount_spec(balance.btc_balance, balance.usd_balance, price, cfg.allocation) as i128;
    match decision_spec(cfg, signals) {
        Signal::Hold => Execution::Idle,
        Signal::Buy => if stop_tripped(
            balance.usd_balance,
            match balance.initial { Some(b) => Some(b.usd_balance), None => None },
            cfg.stop_lose_usd,
        ) {
            Execution::Blocked { side: Side::Buy, amount }
        } else {
            Execution::Place { side: Side::Buy, amount, price }
        },
        Signal::Sell => if stop_tripped(
            balance.btc_balance,
            match balance.initial { Some(b) => Some(b.btc_balance), None => None },
            cfg.stop_lose_btc,
        ) {
            Execution::Blocked { side: Side::Sell, amount }
        } else {
            Execution::Place { side: Side::Sell, amount, price }
        },
    }
}

/// Decides the cycle's action from the signals, the price and the balance.
pub fn plan_execution(cfg: &Config, price: u64, signals: Signals, balance: &Balance) -> (r: Execution)
    requires
        price > 0,
        active_present(cfg, signals),
    ensures
        r == execution_spec(cfg, price, signals, *balance),
{
    let signal = decide(cfg, signals);
    let amount = order_amount(balance, price, cfg.allocation);
    match signal {
        Signal::Hold => Execution::Idle,
        Signal::Buy => {
            if balance.stop_lose_usd(cfg.stop_lose_usd) {
                Execution::Blocked { side: Side::Buy, amount }
            } else {
                Execution::Place { side: Side::Buy, amount, price }
            }
        },
        Signal::Sell => {
            if balance.stop_lose_btc(cfg.stop_lose_btc) {
                Execution::Blocked { side: Side::Sell, amount }
            } else {
                Execution::Place { side: Side::Sell, amount, price }
            }
        },
    }
}

/// A decision to sell is suppressed, with no order, while the coin balance
/// is at or below its stop-loss level; a decision to buy likewise while the
/// USD balance is.
pub proof fn lemma_stop_loss_suppresses(cfg: &Config, price: u64, signals: Signals, balance: Balance)
    ensures
        decision_spec(cfg, signals) == Signal::Sell && stop_tripped(
            balance.btc_balance,
            match balance.initial { Some(b) => Some(b.btc_balance), None => None },
            cfg.stop_lose_btc,
        ) ==> execution_spec(cfg, price, signals, balance) is Blocked,
        decision_spec(cfg, signals) == Signal::Buy && stop_tripped(
            balance.usd_balance,
            match balance.initial { Some(b) => Some(b.usd_balance), None => None },
            cfg.stop_lose_usd,
        ) ==> execution_spec(cfg, price, signals, balance) is Blocked,
{
}

/// Absolute value.
pub open spec fn abs(x: int) -> int {
    if x < 0 {
        -x
    } else {
        x
    }
}

/// Coin and USD balances after booking an executed order: a buy adds the
/// amount less the coin fee and pays `amount * price` plus the USD fee; a sell
/// gives up the amount plus the coin fee and receives `amount * price` less the
/// USD fee. The value of the fill is rounded down.
pub open spec fn filled_balances(b: Balance, side: Side, fill: OrderResponse) -> (int, int) {
    let value = fill.executed_amount * fill.executed_price / scale();
    match side {
        Side::Buy => (
            b.btc_balance + fill.executed_amount - abs(fill.btc_fee as int),
            b.usd_balance - (value + abs(fill.usd_fee as int)),
        ),
        Side::Sell => (
            b.btc_balance - (fill.executed_amount + abs(fill.btc_fee as int)),
            b.usd_balance + value - abs(fill.usd_fee as int),
        ),
    }
}

/// Both balances are 64-bit values.
pub open spec fn fits_i64(pair: (int, int)) -> bool {
    i64::MIN <= pair.0 <= i64::MAX && i64::MIN <= pair.1 <= i64::MAX
}

fn abs_i64(x: i64) -> (r: i128)
    ensures
        r == abs(x as int),
{
    if x < 0 {
        -(x as i128)
    } else {
        x as i128
    }
}

/// Books an executed order. Returns `false`, changing nothing, when a new
/// balance would leave the 64-bit range.
pub fn apply_fill(balance: &mut Balance, side: Side, fill: &OrderResponse) -> (r: bool)
    ensures
        r == fits_i64(filled_balances(*old(balance), side, *fill)),
        r ==> final(balance).btc_balance == filled_balances(*old(balance), side, *fill).0,
        r ==> final(balance).usd_balance == filled_balances(*old(balance), side, *fill).1,
        !r ==> final(balance).btc_balance == old(balance).btc_balance,
        !r ==> final(balance).usd_balance == old(balance).usd_balance,
        final(balance)._btc_price == old(balance)._btc_price,
        final(balance).initial == old(balance).initial,
{
    let value = crate::fixed::mul_wide(fill.executed_amount, fill.executed_price) / (SCALE as u128);
    assert(value <= u128::MAX as int / 100_000_000) by {
        crate::fixed::lemma_mul_u64_fits(fill.executed_amount, fill.executed_price);
        vstd::arithmetic::div_mod::lemma_div_is_ordered(
            fill.executed_amount * fill.executed_price,
            u128::MAX as int,
            100_000_000,
        );
    }
    let value = value as i128;
    let btc_fee = abs_i64(fill.btc_fee);
    let usd_fee = abs_i64(fill.usd_fee);
    let btc = balance.btc_balance as i128;
    let usd = balance.usd_balance as i128;
    let (new_btc, new_usd) = match side {
        Side::Buy => (btc + fill.executed_amount as i128 - btc_fee, usd - (value + usd_fee)),
        Side::Sell => (btc - (fill.executed_amount as i128 + btc_fee), usd + value - usd_fee),
    };
    if i64::MIN as i128 <= new_btc && new_btc <= i64::MAX as i128 && i64::MIN as i128 <= new_usd && new_usd
        <= i64::MAX as i128 {
        balance.btc_balance = new_btc as i64;
        balance.usd_balance = new_usd as i64;
        true
    } else {
        false
    }
}

} // verus!
