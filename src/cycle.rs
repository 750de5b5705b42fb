//! Decisions of the periodic loop that surround the engine: when fees are
//! assessed, the starting USD balance, and the take-profit sweep.
use vstd::prelude::*;
use crate::balance::Balance;
use crate::fixed::{max_int, mul_wide, scale, SCALE};

verus! {

/// Whether cycle `cycle` is one on which the performance fee is assessed.
pub fn is_fee_cycle(cycle: u32, perf_fee_cycles: u32) -> (r: bool)
    ensures
        r == (perf_fee_cycles != 0 && cycle % perf_fee_cycles == 0),
{
    perf_fee_cycles != 0 && cycle % perf_fee_cycles == 0
}

/// Starting USD: the configured amount, or the worth of the starting coins at
/// `price` when the configured amount is negative; rounded down.
pub open spec fn starting_usd_spec(initial_btc: i64, initial_usd: i64, price: u64) -> int {
    if initial_usd < 0 {
        initial_btc * price / scale()
    } else {
        initial_usd as int
    }
}

/// See `starting_usd_spec`; `None` when the worth does not fit in 64 bits.
pub fn starting_usd(initial_btc: i64, initial_usd: i64, price: u64) -> (r: Option<i64>)
    ensures
        i64::MIN <= starting_usd_spec(initial_btc, initial_usd, price) <= i64::MAX
            ==> r == Some(starting_usd_spec(initial_btc, initial_usd, price) as i64),
        !(i64::MIN <= starting_usd_spec(initial_btc, initial_usd, price) <= i64::MAX) ==> r is None,
{
    if initial_usd >= 0 {
        return Some(initial_usd);
    }
    assert(-0x8000_0000_0000_0000 * 0xffff_ffff_ffff_ffff <= initial_btc * price <= 0x7fff_ffff_ffff_ffff
        * 0xffff_ffff_ffff_ffff) by (nonlinear_arith)
        requires
            -0x8000_0000_0000_0000 <= initial_btc <= 0x7fff_ffff_ffff_ffff,
            0 <= price <= 0xffff_ffff_ffff_ffff,
    ;
    let worth = crate::fixed::div_floor_i128(initial_btc as i128 * price as i128, SCALE as u128);
    if i64::MIN as i128 <= worth && worth <= i64::MAX as i128 {
        Some(worth as i64)
    } else {
        None
    }
}

/// The gain of `current` over `initial` that the sweep sets aside: all of it,
/// once it reaches the fraction `threshold` of `initial` (any gain does when
/// `initial` is zero, none when it is negative); nothing when `threshold` is zero.
pub open spec fn sweep_amount(current: i64, initial: i64, threshold: u64) -> int {
    let profit = max_int(0, current - initial);
    if threshold == 0 || profit == 0 {
        0
    } else if initial == 0 || (initial > 0 && profit * scale() >= threshold * initial) {
        profit
    } else {
        0
    }
}

fn sweep(current: i64, initial: i64, threshold: u64) -> (r: i64)
    ensures
        r == sweep_amount(current, initial, threshold),
        0 <= r,
        current - r >= initial || r == 0,
{
    if threshold == 0 || current <= initial {
        return 0;
    }
    let profit = (current as i128 - initial as i128) as u64;
    if initial == 0 {
        return profit as i64;
    }
    if initial < 0 {
        return 0;
    }
    if mul_wide(profit, SCALE) >= mul_wide(threshold, initial as u64) {
        profit as i64
    } else {
        0
    }
}

/// Amounts set aside by one sweep.
#[derive(Debug, Clone, Copy, PartialEq, Eq, Structural)]
pub struct SetAside {
    pub btc: i64,
    pub usd: i64,
}

/// Moves the gain over the starting balance out of `balance`, per asset,
/// once it reaches the take-profit fraction of that asset.
pub fn take_profit(balance: &mut Balance, initial: &Balance, take_profit_btc: u64, take_profit_usd: u64) -> (r:
    SetAside)
    ensures
        r.btc == sweep_amount(old(balance).btc_balance, initial.btc_balance, take_profit_btc),
        r.usd == sweep_amount(old(balance).usd_balance, initial.usd_balance, take_profit_usd),
        final(balance).btc_balance == old(balance).btc_balance - r.btc,
        final(balance).usd_balance == old(balance).usd_balance - r.usd,
        final(balance)._btc_price == old(balance)._btc_price,
        final(balance).initial == old(balance).initial,
{
    let btc = sweep(balance.btc_balance, initial.btc_balance, take_profit_btc);
    let usd = sweep(balance.usd_balance, initial.usd_balance, take_profit_usd);
    balance.btc_balance = balance.btc_balance - btc;
    balance.usd_balance = balance.usd_balance - usd;
    SetAside { btc, usd }
}

} // verus!
