//! Portfolio balance and its drawdown checks.
use vstd::prelude::*;
use crate::fixed::{scale, SCALE};

verus! {

/// The balance recorded when a run starts; drawdowns are measured against it.
#[derive(Debug, Clone, Copy, PartialEq, Eq, Structural)]
pub struct Baseline {
    pub btc_balance: i64,
    pub usd_balance: i64,
}

/// Holdings of the traded coin and of USD, in units of `1 / SCALE`.
#[derive(Debug, Clone, Copy, PartialEq, Eq, Structural)]
pub struct Balance {
    pub btc_balance: i64,
    pub usd_balance: i64,
    /// Coin price when the balance was recorded.
    pub _btc_price: u64,
    /// Baseline of the run, once set.
    pub initial: Option<Baseline>,
}

/// `current` is at or below `base * (1 - threshold)`, `threshold` a fraction in
/// units of `1 / SCALE`.
pub open spec fn below_stop(current: i64, base: i64, threshold: u64) -> bool {
    current * scale() <= base * (scale() - threshold)
}

/// The stop-loss check that `stop_lose_btc` and `stop_lose_usd` make: never with
/// a zero threshold or without a baseline.
pub open spec fn stop_tripped(current: i64, base: Option<i64>, threshold: u64) -> bool {
    threshold != 0 && base is Some && below_stop(current, base->0, threshold)
}

fn below_stop_exec(current: i64, base: i64, threshold: u64) -> (r: bool)
    ensures
        r == below_stop(current, base, threshold),
{
    let lhs = current as i128 * 100_000_000i128;
    assert(lhs == current * scale());
    let factor = SCALE as i128 - threshold as i128;
    assert(-0x8000_0000_0000_0000 * 0xffff_ffff_ffff_ffff < base * factor < 0x8000_0000_0000_0000 * 0xffff_ffff_ffff_ffff) by (nonlinear_arith)
        requires
            -0x8000_0000_0000_0000 <= base < 0x8000_0000_0000_0000,
            -0xffff_ffff_ffff_ffff < factor < 0xffff_ffff_ffff_ffff,
    ;
    let rhs = base as i128 * factor;
    lhs <= rhs
}

impl Balance {
    /// A balance without a baseline.
    pub fn new(btc_balance: i64, usd_balance: i64, btc_price: u64) -> (r: Self)
        ensures
            r == (Balance { btc_balance, usd_balance, _btc_price: btc_price, initial: None }),
    {
        Balance { btc_balance, usd_balance, _btc_price: btc_price, initial: None }
    }

    /// Records `initial` as the baseline for drawdown checks.
    pub fn set_initial(&mut self, initial: Balance)
        ensures
            final(self).btc_balance == old(self).btc_balance,
            final(self).usd_balance == old(self).usd_balance,
            final(self)._btc_price == old(self)._btc_price,
            final(self).initial == Some(Baseline { btc_balance: initial.btc_balance, usd_balance: initial.usd_balance }),
    {
        self.initial = Some(Baseline { btc_balance: initial.btc_balance, usd_balance: initial.usd_balance });
    }

    /// Whether the coin balance has fallen to `baseline * (1 - stop_lose_btc)` or
    /// below; never with a zero threshold or without a baseline.
    pub fn stop_lose_btc(&self, stop_lose_btc: u64) -> (r: bool)
        ensures
            r == stop_tripped(
                self.btc_balance,
                match self.initial { Some(b) => Some(b.btc_balance), None => None },
                stop_lose_btc,
            ),
    {
        if stop_lose_btc == 0 {
            return false;
        }
        match &self.initial {
            Some(init) => below_stop_exec(self.btc_balance, init.btc_balance, stop_lose_btc),
            None => false,
        }
    }

    /// Whether the USD balance has fallen to `baseline * (1 - stop_lose_usd)` or
    /// below; never with a zero threshold or without a baseline.
    pub fn stop_lose_usd(&self, stop_lose_usd: u64) -> (r: bool)
        ensures
            r == stop_tripped(
                self.usd_balance,
                match self.initial { Some(b) => Some(b.usd_balance), None => None },
                stop_lose_usd,
            ),
    {
        if stop_lose_usd == 0 {
            return false;
        }
        match &self.initial {
            Some(init) => below_stop_exec(self.usd_balance, init.usd_balance, stop_lose_usd),
            None => false,
        }
    }
}

} // verus!
