use sistra::balance::{Balance, Baseline};
use sistra::cex::candles::{candle_price, sort_by_time};
use sistra::cex::sign::sign;
use sistra::cex::simulate::start_date_parts;
use sistra::cex::simulate::{ReplayError, SimulateClient};
use sistra::coin::Coin;
use sistra::config::{Config, PerfFeeMode};
use sistra::cycle::{is_fee_cycle, starting_usd, take_profit, SetAside};
use sistra::executor::{apply_fill, decide, order_amount, plan_execution, Execution};
use sistra::fear_greed::FearGreedIndex;
use sistra::fee::{FeeOutcome, PerfFeeTracker};
use sistra::fixed::SCALE;
use sistra::logger::LogLevel;
use sistra::order::{OrderResponse, Side};
use sistra::signal::{Signal, Signals};
use sistra::strategy::{Strategy, StrategyWeights};

const S: u64 = SCALE;
const SI: i64 = SCALE as i64;

fn settings(strategy: Strategy, rate: u64, mode: PerfFeeMode, deduct: bool) -> Config {
    Config {
        log_level: LogLevel::Info,
        coin: Coin::Bitcoin,
        period: 30,
        initial_btc: SI,
        initial_usd: 0,
        allocation: S / 10,
        take_profit_btc: 0,
        stop_lose_btc: S / 10,
        take_profit_usd: 0,
        stop_lose_usd: S / 10,
        strategy,
        use_fear_index: false,
        ema_short: 2,
        ema_long: 3,
        rsi_period: 2,
        rsi_oversold: 30 * S,
        rsi_overbought: 70 * S,
        grid_levels: 2,
        grid_range: S / 2,
        dip_pct: 5 * S,
        tp_pct: 10 * S,
        buyback_pct: 10 * S,
        weight_ema: 0,
        weight_rsi: 0,
        weight_grid: 0,
        weight_buy_dip: 0,
        weight_tp_o_bb: 0,
        signal_threshold: S / 10,
        perf_fee_cycles: 1,
        perf_fee_rate: rate,
        perf_fee_mode: mode,
        deduct_fee_from_balance: deduct,
        cex: "simulate".to_string(),
        cex_api_passphrase: String::new(),
        cex_api_secret: String::new(),
        cex_api_key: String::new(),
        simulate_file: String::new(),
        simulate_day: 0,
        simulate_cycles: 0,
        telegram_channel_id: 0,
        is_simulation: true,
    }
}

fn only(sig: Signal) -> Signals {
    Signals { ema: Some(sig), rsi: None, grid: None, buy_dip: None, tp_o_bb: None }
}

fn with_baseline(btc: i64, usd: i64, base_btc: i64, base_usd: i64) -> Balance {
    let mut b = Balance::new(btc, usd, 50_000 * S);
    b.set_initial(Balance::new(base_btc, base_usd, 50_000 * S));
    b
}

#[test]
fn balance_set_initial_keeps_amounts() {
    let b = with_baseline(SI, 2 * SI, 3 * SI, 4 * SI);
    assert_eq!(b.btc_balance, SI);
    assert_eq!(b.usd_balance, 2 * SI);
    assert_eq!(b.initial, Some(Baseline { btc_balance: 3 * SI, usd_balance: 4 * SI }));
}

#[test]
fn stop_loss_btc_boundary() {
    assert!(with_baseline(89_000_000, 0, SI, 0).stop_lose_btc(S / 10));
    assert!(with_baseline(90_000_000, 0, SI, 0).stop_lose_btc(S / 10));
    assert!(!with_baseline(91_000_000, 0, SI, 0).stop_lose_btc(S / 10));
}

#[test]
fn stop_loss_disabled() {
    assert!(!with_baseline(0, 0, SI, SI).stop_lose_btc(0));
    assert!(!with_baseline(0, 0, SI, SI).stop_lose_usd(0));
    assert!(!Balance::new(0, 0, S).stop_lose_btc(S / 10));
    assert!(!Balance::new(0, 0, S).stop_lose_usd(S / 10));
}

#[test]
fn stop_loss_usd() {
    assert!(with_baseline(0, 799 * SI, 0, 1000 * SI).stop_lose_usd(S / 5));
    assert!(with_baseline(0, 800 * SI, 0, 1000 * SI).stop_lose_usd(S / 5));
    assert!(!with_baseline(0, 801 * SI, 0, 1000 * SI).stop_lose_usd(S / 5));
}

#[test]
fn order_sizing() {
    let b = Balance::new(SI, 0, 0);
    assert_eq!(order_amount(&b, 50_000 * S, S / 10), 10_000_000);
    let b = Balance::new(0, 1000 * SI, 0);
    assert_eq!(order_amount(&b, 50_000 * S, S / 2), 1_000_000);
    // a positive coin balance sizes the order even when the share rounds to zero
    let b = Balance::new(1, 1000 * SI, 0);
    assert_eq!(order_amount(&b, S, S / 2), 0);
    let b = Balance::new(0, 1000 * SI, 0);
    assert_eq!(order_amount(&b, S, 0), 0);
    let b = Balance::new(0, -1000 * SI, 0);
    assert_eq!(order_amount(&b, 3 * S, S), -33_333_333_334);
}

#[test]
fn plan_follows_decision_and_stop_loss() {
    let cfg = settings(Strategy::Ema, 0, PerfFeeMode::HighWaterMark, false);
    let price = 50_000 * S;
    let healthy = with_baseline(SI, 1000 * SI, SI, 1000 * SI);
    assert_eq!(plan_execution(&cfg, price, only(Signal::Hold), &healthy), Execution::Idle);
    assert_eq!(
        plan_execution(&cfg, price, only(Signal::Buy), &healthy),
        Execution::Place { side: Side::Buy, amount: 10_000_000, price }
    );
    assert_eq!(
        plan_execution(&cfg, price, only(Signal::Sell), &healthy),
        Execution::Place { side: Side::Sell, amount: 10_000_000, price }
    );
    // the coin balance tripped its stop: a sell is suppressed, a buy is not
    let low_btc = with_baseline(89_000_000, 1000 * SI, SI, 1000 * SI);
    assert_eq!(
        plan_execution(&cfg, price, only(Signal::Sell), &low_btc),
        Execution::Blocked { side: Side::Sell, amount: 8_900_000 }
    );
    assert_eq!(
        plan_execution(&cfg, price, only(Signal::Buy), &low_btc),
        Execution::Place { side: Side::Buy, amount: 8_900_000, price }
    );
    let low_usd = with_baseline(SI, 800 * SI, SI, 1000 * SI);
    assert_eq!(
        plan_execution(&cfg, price, only(Signal::Buy), &low_usd),
        Execution::Blocked { side: Side::Buy, amount: 10_000_000 }
    );
}

#[test]
fn decide_uses_active_strategy() {
    let cfg = settings(Strategy::Ema, 0, PerfFeeMode::HighWaterMark, false);
    assert_eq!(decide(&cfg, only(Signal::Sell)), Signal::Sell);
    let mut cfg = settings(Strategy::Combined, 0, PerfFeeMode::HighWaterMark, false);
    cfg.weight_ema = S;
    assert_eq!(decide(&cfg, only(Signal::Buy)), Signal::Buy);
}

#[test]
fn fill_buy_and_sell() {
    let fill = OrderResponse { executed_price: 50_000 * S, executed_amount: S / 10, btc_fee: -100_000, usd_fee: 10 * SI };
    let mut b = with_baseline(SI, 10_000 * SI, SI, 10_000 * SI);
    assert!(apply_fill(&mut b, Side::Buy, &fill));
    assert_eq!((b.btc_balance, b.usd_balance), (109_900_000, 4_990 * SI));
    let mut b = with_baseline(SI, 10_000 * SI, SI, 10_000 * SI);
    assert!(apply_fill(&mut b, Side::Sell, &fill));
    assert_eq!((b.btc_balance, b.usd_balance), (89_900_000, 14_990 * SI));
    assert_eq!(b.initial, Some(Baseline { btc_balance: SI, usd_balance: 10_000 * SI }));
}

#[test]
fn fill_out_of_range_changes_nothing() {
    let fill = OrderResponse { executed_price: u64::MAX, executed_amount: u64::MAX, btc_fee: 0, usd_fee: 0 };
    let mut b = Balance::new(SI, SI, S);
    assert!(!apply_fill(&mut b, Side::Buy, &fill));
    assert_eq!((b.btc_balance, b.usd_balance), (SI, SI));
}

#[test]
fn high_water_mark_fee() {
    let cfg = settings(Strategy::Ema, S / 10, PerfFeeMode::HighWaterMark, true);
    let mut balance = Balance::new(SI, 0, S);
    let mut tracker = PerfFeeTracker::new(&balance, true);
    balance.btc_balance = 120_000_000;
    assert_eq!(tracker.maybe_deduct_fee(&cfg, &mut balance), FeeOutcome::Charged { fee_btc: 2_000_000, fee_usd: 0 });
    assert_eq!(tracker.total_fee_btc, 2_000_000);
    assert_eq!(balance.btc_balance, 118_000_000);
    assert_eq!(tracker.high_water_mark_btc, 118_000_000);
    assert_eq!(tracker.maybe_deduct_fee(&cfg, &mut balance), FeeOutcome::Charged { fee_btc: 0, fee_usd: 0 });
    assert_eq!(tracker.total_fee_btc, 2_000_000);
    assert_eq!(balance.btc_balance, 118_000_000);
}

#[test]
fn high_water_mark_follows_drawdown() {
    let cfg = settings(Strategy::Ema, S / 10, PerfFeeMode::HighWaterMark, false);
    let mut balance = Balance::new(SI, 100 * SI, S);
    let mut tracker = PerfFeeTracker::new(&balance, false);
    balance.usd_balance = 90 * SI;
    assert_eq!(tracker.maybe_deduct_fee(&cfg, &mut balance), FeeOutcome::Charged { fee_btc: 0, fee_usd: 0 });
    assert_eq!(tracker.high_water_mark_usd, 90 * SI);
    balance.usd_balance = 100 * SI;
    assert_eq!(tracker.maybe_deduct_fee(&cfg, &mut balance), FeeOutcome::Charged { fee_btc: 0, fee_usd: SI });
    assert_eq!(balance.usd_balance, 100 * SI);
    assert_eq!(tracker.total_fee_usd, SI);
}

#[test]
fn cumulative_fee_catches_up() {
    let cfg = settings(Strategy::Ema, S / 10, PerfFeeMode::Cumulative, false);
    let mut balance = Balance::new(SI, 0, S);
    let mut tracker = PerfFeeTracker::new(&balance, false);
    balance.btc_balance = 150_000_000;
    assert_eq!(tracker.maybe_deduct_fee(&cfg, &mut balance), FeeOutcome::Charged { fee_btc: 5_000_000, fee_usd: 0 });
    assert_eq!(tracker.total_fee_btc, 5_000_000);
    balance.btc_balance = 120_000_000;
    assert_eq!(tracker.maybe_deduct_fee(&cfg, &mut balance), FeeOutcome::Charged { fee_btc: 0, fee_usd: 0 });
    assert_eq!(tracker.total_fee_btc, 5_000_000);
    assert_eq!(balance.btc_balance, 120_000_000);
    balance.btc_balance = 160_000_000;
    assert_eq!(tracker.maybe_deduct_fee(&cfg, &mut balance), FeeOutcome::Charged { fee_btc: 1_000_000, fee_usd: 0 });
    assert_eq!(tracker.total_fee_btc, 6_000_000);
}

#[test]
fn fee_skipped_without_rate_or_cycles() {
    let cfg = settings(Strategy::Ema, 0, PerfFeeMode::HighWaterMark, true);
    let mut balance = Balance::new(SI, 0, S);
    let mut tracker = PerfFeeTracker::new(&balance, true);
    balance.btc_balance = 3 * SI;
    assert_eq!(tracker.maybe_deduct_fee(&cfg, &mut balance), FeeOutcome::Skipped);
    let mut cfg = settings(Strategy::Ema, S / 10, PerfFeeMode::HighWaterMark, true);
    cfg.perf_fee_cycles = 0;
    assert_eq!(tracker.maybe_deduct_fee(&cfg, &mut balance), FeeOutcome::Skipped);
    assert_eq!(balance.btc_balance, 3 * SI);
    assert_eq!(tracker.total_fee_btc, 0);
}

#[test]
fn fee_out_of_range() {
    let cfg = settings(Strategy::Ema, u64::MAX, PerfFeeMode::HighWaterMark, true);
    let mut balance = Balance::new(0, 0, S);
    let mut tracker = PerfFeeTracker::new(&balance, true);
    balance.btc_balance = i64::MAX;
    assert_eq!(tracker.maybe_deduct_fee(&cfg, &mut balance), FeeOutcome::OutOfRange);
    assert_eq!(balance.btc_balance, i64::MAX);
    assert_eq!(tracker.high_water_mark_btc, 0);
}

#[test]
fn fear_greed_scales_weights() {
    let base = StrategyWeights { ema: S, rsi: S, grid: S, buy_dip: S, tp_or_bb: S };
    let fear = FearGreedIndex { value: 0, classification: "Extreme Fear".to_string() };
    assert_eq!(
        fear.apply(&base),
        StrategyWeights { ema: 90_000_000, rsi: 110_000_000, grid: S, buy_dip: 150_000_000, tp_or_bb: 50_000_000 }
    );
    let greed = FearGreedIndex { value: 100, classification: "Extreme Greed".to_string() };
    assert_eq!(
        greed.apply(&base),
        StrategyWeights { ema: 110_000_000, rsi: 90_000_000, grid: S, buy_dip: 50_000_000, tp_or_bb: 150_000_000 }
    );
    let neutral = FearGreedIndex { value: 50, classification: "Neutral".to_string() };
    assert_eq!(neutral.apply(&base), base);
    assert_eq!(neutral.normalize_weight(), S / 2);
    let huge = StrategyWeights { ema: 0, rsi: 0, grid: 0, buy_dip: u64::MAX, tp_or_bb: 0 };
    assert_eq!(fear.apply(&huge).buy_dip, u64::MAX);
}

#[test]
fn replay_sorts_and_walks_forward() {
    let entries = vec![("20240103".to_string(), 3 * S), ("20240101".to_string(), S), ("20240102".to_string(), 2 * S)];
    let mut client = SimulateClient::new(entries, 2);
    let dates: Vec<&str> = client.data.iter().map(|(d, _)| d.as_str()).collect();
    assert_eq!(dates, vec!["20240101", "20240102", "20240103"]);
    assert_eq!(client.day, 1);
    assert_eq!(client.get_historical(5), vec![S]);
    assert_eq!(client.get_price(), Ok(2 * S));
    assert_eq!(client.get_historical(1), vec![2 * S]);
    assert_eq!(client.get_historical(2), vec![S, 2 * S]);
    assert_eq!(client.get_price(), Ok(3 * S));
    assert_eq!(client.get_price(), Err(ReplayError::OutOfData));
    assert_eq!(client.day, 3);
}

#[test]
fn replay_keeps_equal_dates_in_order() {
    let entries = vec![("b".to_string(), 1), ("a".to_string(), 2), ("b".to_string(), 3), ("a".to_string(), 4)];
    let client = SimulateClient::new(entries, 10);
    let prices: Vec<u64> = client.data.iter().map(|(_, p)| *p).collect();
    assert_eq!(prices, vec![2, 4, 1, 3]);
    assert_eq!(client.day, 0);
}

#[test]
fn replay_synthetic_order() {
    let client = SimulateClient::new(vec![("20240101".to_string(), S)], 1);
    assert_eq!(
        client.put_order(Side::Buy, S, Some(50_000 * S)),
        Ok(OrderResponse { executed_price: 50_000 * S, executed_amount: S, btc_fee: 0, usd_fee: 100 * SI })
    );
    assert_eq!(client.put_order(Side::Sell, u64::MAX, Some(u64::MAX)), Err(ReplayError::FeeOutOfRange));
}

#[test]
fn request_signature() {
    assert_eq!(sign("secret", "GET", "/api/v1/accounts", "", "1700000000"), "lk/YIW5S75knysD7HBjdLDnYw7/x+VbzWyi9H9RFEgI=");
    assert_eq!(
        sign("key", " brown fox", " jumps over", " the lazy dog", "The quick"),
        "97yD9DBThCSxMpjmqm+xQ+9NWaFJRhdZl0edvC0aPNg="
    );
}

#[test]
fn fee_cycles() {
    assert!(is_fee_cycle(6, 3));
    assert!(!is_fee_cycle(7, 3));
    assert!(!is_fee_cycle(5, 0));
}

#[test]
fn starting_usd_from_coins() {
    assert_eq!(starting_usd(SI, -1, 50_000 * S), Some(50_000 * SI));
    assert_eq!(starting_usd(SI, 5, 50_000 * S), Some(5));
    assert_eq!(starting_usd(i64::MAX, -1, u64::MAX), None);
}

#[test]
fn take_profit_sweep() {
    let initial = Balance::new(SI, 1000 * SI, S);
    let mut b = Balance::new(120_000_000, 1000 * SI, S);
    assert_eq!(take_profit(&mut b, &initial, S / 10, S / 10), SetAside { btc: 20_000_000, usd: 0 });
    assert_eq!(b.btc_balance, SI);
    let mut b = Balance::new(105_000_000, 1200 * SI, S);
    assert_eq!(take_profit(&mut b, &initial, S / 10, 0), SetAside { btc: 0, usd: 0 });
    assert_eq!((b.btc_balance, b.usd_balance), (105_000_000, 1200 * SI));
}

#[test]
fn coin_names() {
    assert_eq!(Coin::Bitcoin.symbol(), "BTC");
    assert_eq!(Coin::Usdt.symbol(), "USDT");
    assert_eq!(Coin::Solana._coin_gecko_id(), "solana");
    assert_eq!(Coin::Usdt._name(), "Tether USD");
}

#[test]
fn candles_oldest_first() {
    let sorted = sort_by_time(vec![(300, 3), (100, 1), (200, 2), (100, 4)]);
    assert_eq!(sorted, vec![(100, 1), (100, 4), (200, 2), (300, 3)]);
    assert_eq!(sort_by_time(vec![]), vec![]);
}

#[test]
fn candle_mid_price() {
    assert_eq!(candle_price(110 * S, 90 * S), 100 * S);
    assert_eq!(candle_price(3, 0), 1);
    assert_eq!(candle_price(u64::MAX, u64::MAX), u64::MAX);
}

#[test]
fn simulate_day_parts() {
    assert_eq!(start_date_parts(20250722), (2025, 7, 22));
}
