use sistra::config::{Config, PerfFeeMode};
use sistra::coin::Coin;
use sistra::executor::combined;
use sistra::fixed::SCALE;
use sistra::logger::LogLevel;
use sistra::signal::{Signal, Signals};
use sistra::strategy::{
    _grid_strategy, buy_the_dip_strategy, ema, ema_crossover_strategy, generate_signals, grid_in_range, grid_strategy,
    partial_take_profit_strategy, rsi, rsi_strategy, SignalError, Strategy, StrategyWeights,
};

const S: u64 = SCALE;

fn config(strategy: Strategy) -> Config {
    Config {
        log_level: LogLevel::Info,
        coin: Coin::Bitcoin,
        period: 30,
        initial_btc: 100_000_000,
        initial_usd: 0,
        allocation: 10_000_000,
        take_profit_btc: 0,
        stop_lose_btc: 0,
        take_profit_usd: 0,
        stop_lose_usd: 0,
        strategy,
        use_fear_index: false,
        ema_short: 2,
        ema_long: 3,
        rsi_period: 2,
        rsi_oversold: 30 * S,
        rsi_overbought: 70 * S,
        grid_levels: 2,
        grid_range: S / 2,
        dip_pct: 5 * S,
        tp_pct: 10 * S,
        buyback_pct: 10 * S,
        weight_ema: 0,
        weight_rsi: 0,
        weight_grid: 0,
        weight_buy_dip: 0,
        weight_tp_o_bb: 0,
        signal_threshold: S / 10,
        perf_fee_cycles: 1,
        perf_fee_rate: 0,
        perf_fee_mode: PerfFeeMode::HighWaterMark,
        deduct_fee_from_balance: true,
        cex: "simulate".to_string(),
        cex_api_passphrase: String::new(),
        cex_api_secret: String::new(),
        cex_api_key: String::new(),
        simulate_file: String::new(),
        simulate_day: 0,
        simulate_cycles: 0,
        telegram_channel_id: 0,
        is_simulation: true,
    }
}

fn weights(cfg: &Config) -> StrategyWeights {
    StrategyWeights {
        ema: cfg.weight_ema,
        rsi: cfg.weight_rsi,
        grid: cfg.weight_grid,
        buy_dip: cfg.weight_buy_dip,
        tp_or_bb: cfg.weight_tp_o_bb,
    }
}

fn p(v: &[u64]) -> Vec<u64> {
    v.iter().map(|x| x * S).collect()
}

#[test]
fn ema_short_history_holds() {
    let prices = p(&[1, 5, 2, 9]);
    for long in 5..9 {
        assert_eq!(ema_crossover_strategy(&prices, 2, long), Signal::Hold);
    }
    assert_eq!(ema_crossover_strategy(&[], 1, 2), Signal::Hold);
}

#[test]
fn ema_invalid_periods_hold() {
    let prices = p(&[1, 2, 3, 4, 1, 9]);
    assert_eq!(ema_crossover_strategy(&prices, 0, 3), Signal::Hold);
    assert_eq!(ema_crossover_strategy(&prices, 3, 3), Signal::Hold);
    assert_eq!(ema_crossover_strategy(&prices, 4, 3), Signal::Hold);
}

#[test]
fn ema_values() {
    assert_eq!(ema(&p(&[1, 2, 3, 4, 5]), 2), vec![150000000, 183333333, 261111111, 353703703, 451234567]);
    assert_eq!(ema(&p(&[7, 3]), 5), vec![7 * S, 7 * S - (4 * S * 2) / 6]);
    assert!(ema(&[], 3).is_empty());
    assert!(ema(&p(&[1, 2]), 0).is_empty());
}

#[test]
fn ema_crossover_buy_and_sell() {
    // a sharp rise at the end lifts the short average over the long one
    assert_eq!(ema_crossover_strategy(&p(&[10, 10, 10, 10, 20]), 2, 3), Signal::Buy);
    assert_eq!(ema_crossover_strategy(&p(&[10, 10, 10, 10, 5]), 2, 3), Signal::Sell);
    assert_eq!(ema_crossover_strategy(&p(&[10, 10, 10, 10, 10]), 2, 3), Signal::Hold);
}

#[test]
fn rsi_all_gains_is_hundred() {
    let values = rsi(&p(&[1, 2, 3, 4]), 3);
    assert_eq!(values[3], 100 * S);
    assert_eq!(values[0], 50 * S);
}

#[test]
fn rsi_all_losses_is_zero() {
    let values = rsi(&p(&[9, 7, 4, 2]), 3);
    assert_eq!(values[3], 0);
    assert_eq!(values[2], 50 * S);
}

#[test]
fn rsi_wilder_values() {
    assert_eq!(rsi(&p(&[10, 11, 10, 12, 11]), 2), vec![5000000000, 5000000000, 5000000000, 8333333333, 5000000000]);
    assert_eq!(rsi(&p(&[1, 2]), 2), vec![50 * S, 50 * S]);
    assert_eq!(rsi(&p(&[1, 2, 3]), 0), vec![50 * S, 50 * S, 50 * S]);
}

#[test]
fn rsi_strategy_classifies_last() {
    assert_eq!(rsi_strategy(&p(&[1, 2, 3, 4]), 3, 30 * S, 70 * S), Signal::Sell);
    assert_eq!(rsi_strategy(&p(&[9, 7, 4, 2]), 3, 30 * S, 70 * S), Signal::Buy);
    assert_eq!(rsi_strategy(&p(&[10, 11, 10, 12, 11]), 2, 30 * S, 70 * S), Signal::Hold);
    assert_eq!(rsi_strategy(&[], 2, 30 * S, 70 * S), Signal::Hold);
    assert_eq!(rsi_strategy(&p(&[1, 2, 3]), 0, 60 * S, 70 * S), Signal::Hold);
}

#[test]
fn grid_band_from_last_price() {
    // band 55..165 around 110, two steps of 55: cells 0, 0, 1
    assert_eq!(grid_strategy(&p(&[100, 90, 110]), 2, S / 2), Signal::Sell);
    // band 50..150 around 100: cells 1, 0, 1
    assert_eq!(grid_strategy(&p(&[170, 60, 100]), 2, S / 2), Signal::Sell);
    // three steps of 33.3: 200 is clamped into the top cell 2, 100 is in cell 1
    assert_eq!(grid_strategy(&p(&[200, 100]), 3, S / 2), Signal::Buy);
    // prices above the band stay in the top cell
    assert_eq!(grid_strategy(&p(&[500, 300, 100]), 2, S / 2), Signal::Hold);
    assert_eq!(grid_strategy(&p(&[100, 100]), 2, S / 2), Signal::Hold);
}

#[test]
fn grid_degenerate_inputs_hold() {
    assert_eq!(grid_strategy(&[], 2, S / 2), Signal::Hold);
    assert_eq!(grid_strategy(&p(&[100, 200]), 0, S / 2), Signal::Hold);
    assert_eq!(grid_strategy(&p(&[100, 200]), 2, 0), Signal::Hold);
    assert_eq!(grid_strategy(&[100, 0], 2, S / 2), Signal::Hold);
}

#[test]
fn grid_range_check() {
    assert!(grid_in_range(&p(&[100]), 10, S));
    assert!(grid_in_range(&[], usize::MAX, u64::MAX));
    assert!(!grid_in_range(&[u64::MAX], usize::MAX, u64::MAX));
}

#[test]
fn buy_the_dip_finds_drop() {
    assert_eq!(buy_the_dip_strategy(&p(&[100, 94, 95]), 5 * S), Signal::Buy);
    assert_eq!(buy_the_dip_strategy(&p(&[100, 95]), 5 * S), Signal::Buy);
    assert_eq!(buy_the_dip_strategy(&p(&[100, 96, 97]), 5 * S), Signal::Hold);
    assert_eq!(buy_the_dip_strategy(&p(&[100]), 5 * S), Signal::Hold);
    assert_eq!(buy_the_dip_strategy(&p(&[100, 10]), 0), Signal::Hold);
    assert_eq!(buy_the_dip_strategy(&[0, 0], 5 * S), Signal::Hold);
}

#[test]
fn take_profit_and_buyback() {
    assert_eq!(partial_take_profit_strategy(&p(&[100, 111]), 10 * S, 10 * S), Signal::Sell);
    assert_eq!(partial_take_profit_strategy(&p(&[100, 110]), 10 * S, 10 * S), Signal::Sell);
    assert_eq!(partial_take_profit_strategy(&p(&[100, 90]), 10 * S, 10 * S), Signal::Buy);
    assert_eq!(partial_take_profit_strategy(&p(&[100, 105]), 10 * S, 10 * S), Signal::Hold);
    // the entry moves to 110 after the sale, so 100 is no buyback yet
    assert_eq!(partial_take_profit_strategy(&p(&[100, 110, 100]), 10 * S, 10 * S), Signal::Hold);
    assert_eq!(partial_take_profit_strategy(&p(&[100, 110, 99]), 10 * S, 10 * S), Signal::Buy);
    assert_eq!(partial_take_profit_strategy(&p(&[100]), 10 * S, 10 * S), Signal::Hold);
    assert_eq!(partial_take_profit_strategy(&[], 10 * S, 10 * S), Signal::Hold);
}

#[test]
fn consensus_opposite_opinions_hold() {
    let mut cfg = config(Strategy::Combined);
    cfg.weight_ema = S;
    cfg.weight_rsi = S;
    let signals = Signals { ema: Some(Signal::Buy), rsi: Some(Signal::Sell), grid: None, buy_dip: None, tp_o_bb: None };
    assert_eq!(combined(&cfg, signals), Signal::Hold);
}

#[test]
fn consensus_thresholds_are_strict() {
    let mut cfg = config(Strategy::Combined);
    cfg.weight_ema = 3 * S;
    cfg.weight_rsi = S;
    cfg.signal_threshold = S / 2;
    let buy = Signals { ema: Some(Signal::Buy), rsi: Some(Signal::Sell), grid: None, buy_dip: None, tp_o_bb: None };
    // score 2 / total 4 = 0.5: equal to the threshold, so hold
    assert_eq!(combined(&cfg, buy), Signal::Hold);
    cfg.signal_threshold = S / 2 - 1;
    assert_eq!(combined(&cfg, buy), Signal::Buy);
    let sell = Signals { ema: Some(Signal::Sell), rsi: Some(Signal::Hold), grid: None, buy_dip: None, tp_o_bb: None };
    assert_eq!(combined(&cfg, sell), Signal::Sell);
    let none = Signals { ema: None, rsi: None, grid: None, buy_dip: None, tp_o_bb: None };
    assert_eq!(combined(&cfg, none), Signal::Hold);
    cfg.signal_threshold = S;
    let all = Signals { ema: Some(Signal::Buy), rsi: Some(Signal::Buy), grid: None, buy_dip: None, tp_o_bb: None };
    assert_eq!(combined(&cfg, all), Signal::Hold);
}

#[test]
fn generate_signals_selects_strategies() {
    let mut cfg = config(Strategy::Rsi);
    cfg.weight_grid = S;
    let history = p(&[100, 90, 110]);
    let signals = generate_signals(&cfg, &history, weights(&cfg)).unwrap();
    assert_eq!(signals.ema, None);
    assert_eq!(signals.rsi, Some(rsi_strategy(&history, 2, 30 * S, 70 * S)));
    assert_eq!(signals.grid, Some(Signal::Sell));
    assert_eq!(signals.buy_dip, None);
    assert_eq!(signals.tp_o_bb, None);
}

#[test]
fn generate_signals_errors() {
    let cfg = config(Strategy::Ema);
    assert_eq!(generate_signals(&cfg, &[], weights(&cfg)), Err(SignalError::NoHistoricalData));
    let mut cfg = config(Strategy::Grid);
    cfg.grid_levels = usize::MAX;
    cfg.grid_range = u64::MAX;
    assert_eq!(generate_signals(&cfg, &[u64::MAX], weights(&cfg)), Err(SignalError::GridOutOfRange));
}

#[test]
fn single_weight_consensus_matches_strategy() {
    let history = p(&[100, 94, 95, 101, 120, 99]);
    let mut cfg = config(Strategy::Combined);
    cfg.weight_buy_dip = 2 * S;
    let signals = generate_signals(&cfg, &history, weights(&cfg)).unwrap();
    assert_eq!(combined(&cfg, signals), buy_the_dip_strategy(&history, cfg.dip_pct));
    let mut cfg = config(Strategy::Combined);
    cfg.weight_tp_o_bb = S;
    let signals = generate_signals(&cfg, &history, weights(&cfg)).unwrap();
    assert_eq!(combined(&cfg, signals), partial_take_profit_strategy(&history, cfg.tp_pct, cfg.buyback_pct));
    assert_eq!(combined(&cfg, signals), Signal::Buy);
    let mut cfg = config(Strategy::Combined);
    cfg.weight_ema = S;
    let signals = generate_signals(&cfg, &history, weights(&cfg)).unwrap();
    assert_eq!(combined(&cfg, signals), ema_crossover_strategy(&history, 2, 3));
}

#[test]
fn full_range_grid() {
    // cells over 90..110 in two steps: 1, 0, 2
    assert_eq!(_grid_strategy(&p(&[100, 90, 110]), 2), Signal::Sell);
    assert_eq!(_grid_strategy(&p(&[110, 90]), 2), Signal::Buy);
    assert_eq!(_grid_strategy(&p(&[100, 100, 100]), 2), Signal::Hold);
    assert_eq!(_grid_strategy(&[], 2), Signal::Hold);
    assert_eq!(_grid_strategy(&p(&[100, 90]), 0), Signal::Hold);
}

#[test]
fn consensus_zero_weights_hold() {
    let cfg = config(Strategy::Combined);
    let all_buy = Signals {
        ema: Some(Signal::Buy),
        rsi: Some(Signal::Buy),
        grid: Some(Signal::Buy),
        buy_dip: Some(Signal::Buy),
        tp_o_bb: Some(Signal::Buy),
    };
    assert_eq!(combined(&cfg, all_buy), Signal::Hold);
}
