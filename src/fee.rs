//! Performance-fee accounting across cycles.
use vstd::prelude::*;
use crate::balance::Balance;
use crate::config::{Config, PerfFeeMode};
use crate::fixed::{max_int, mul_wide, scale, SCALE};

verus! {

/// Fee owed on the gain of `current` over the high-water mark `hwm`.
pub open spec fn hwm_fee(current: i64, hwm: i64, rate: u64) -> int {
    max_int(0, current - hwm) * rate / scale()
}

/// Fee on the whole gain of `current` over `initial`, less what was charged.
pub open spec fn desired_fee(current: i64, initial: i64, rate: u64) -> int {
    max_int(0, current - initial) * rate / scale()
}

/// Part of the desired fee that is still due: never negative, so a drawdown
/// refunds nothing and a gain is never charged twice.
pub open spec fn cumulative_fee(current: i64, initial: i64, charged: i64, rate: u64) -> int {
    max_int(0, desired_fee(current, initial, rate) - charged)
}

/// In cumulative mode only the part of the desired fee not yet charged is
/// due, so the total after charging is the larger of the old total and the
/// desired fee: a gain is never charged twice and a drawdown refunds nothing.
pub proof fn lemma_cumulative_charges_increment(current: i64, initial: i64, charged: i64, rate: u64)
    requires
        charged >= 0,
    ensures
        cumulative_fee(current, initial, charged, rate) >= 0,
        charged + cumulative_fee(current, initial, charged, rate) == max_int(
            charged as int,
            desired_fee(current, initial, rate),
        ),
        desired_fee(current, initial, rate) <= charged ==> cumulative_fee(current, initial, charged, rate) == 0,
{
}

/// What an assessment did.
#[derive(Debug, Clone, Copy, PartialEq, Eq, Structural)]
pub enum FeeOutcome {
    /// No fee is configured: nothing was assessed.
    Skipped,
    /// The fees of this assessment, in units of `1 / SCALE` (zero when nothing was due).
    Charged { fee_btc: i64, fee_usd: i64 },
    /// A new total or balance would leave the 64-bit range; nothing changed.
    OutOfRange,
}

/// Tracks high-water marks and the fees charged since the start of a run.
#[derive(Debug)]
pub struct PerfFeeTracker {
    pub initial_balance: Balance,
    pub deduct_fee_from_balance: bool,
    pub high_water_mark_btc: i64,
    pub high_water_mark_usd: i64,
    pub total_fee_btc: i64,
    pub total_fee_usd: i64,
}

impl PerfFeeTracker {
    /// Fee totals are never negative.
    pub open spec fn wf(&self) -> bool {
        self.total_fee_btc >= 0 && self.total_fee_usd >= 0
    }

    /// The coin fee due now, under `mode`.
    pub open spec fn fee_btc_due(&self, mode: PerfFeeMode, rate: u64, b: Balance) -> int {
        match mode {
            PerfFeeMode::HighWaterMark => hwm_fee(b.btc_balance, self.high_water_mark_btc, rate),
            PerfFeeMode::Cumulative => cumulative_fee(
                b.btc_balance,
                self.initial_balance.btc_balance,
                self.total_fee_btc,
                rate,
            ),
        }
    }

    /// The USD fee due now, under `mode`.
    pub open spec fn fee_usd_due(&self, mode: PerfFeeMode, rate: u64, b: Balance) -> int {
        match mode {
            PerfFeeMode::HighWaterMark => hwm_fee(b.usd_balance, self.high_water_mark_usd, rate),
            PerfFeeMode::Cumulative => cumulative_fee(
                b.usd_balance,
                self.initial_balance.usd_balance,
                self.total_fee_usd,
                rate,
            ),
        }
    }

    /// The new totals, and the balances if the fees are deducted, are 64-bit values.
    pub open spec fn fees_fit(&self, fee_btc: int, fee_usd: int, b: Balance) -> bool {
        &&& self.total_fee_btc + fee_btc <= i64::MAX
        &&& self.total_fee_usd + fee_usd <= i64::MAX
        &&& self.deduct_fee_from_balance ==> b.btc_balance - fee_btc >= i64::MIN
        &&& self.deduct_fee_from_balance ==> b.usd_balance - fee_usd >= i64::MIN
    }

    /// A tracker whose high-water marks start at `initial_balance`.
    pub fn new(initial_balance: &Balance, deduct_from_balance: bool) -> (r: Self)
        ensures
            r.wf(),
            r.initial_balance == *initial_balance,
            r.deduct_fee_from_balance == deduct_from_balance,
            r.high_water_mark_btc == initial_balance.btc_balance,
            r.high_water_mark_usd == initial_balance.usd_balance,
            r.total_fee_btc == 0,
            r.total_fee_usd == 0,
    {
        PerfFeeTracker {
            initial_balance: *initial_balance,
            high_water_mark_btc: initial_balance.btc_balance,
            high_water_mark_usd: initial_balance.usd_balance,
            total_fee_btc: 0,
            total_fee_usd: 0,
            deduct_fee_from_balance: deduct_from_balance,
        }
    }

    /// Assesses the performance fee of a cycle at rate `cfg.perf_fee_rate`
    /// (a fraction in units of `1 / SCALE`), per asset independently. The fee
    /// is added to the total and, if so configured, taken from the balance. In
    /// high-water-mark mode the marks then move to the (possibly reduced)
    /// balance, whether or not a fee was due.
    pub fn maybe_deduct_fee(&mut self, cfg: &Config, balance: &mut Balance) -> (r: FeeOutcome)
        requires
            old(self).wf(),
        ensures
            final(self).wf(),
            final(self).initial_balance == old(self).initial_balance,
            final(self).deduct_fee_from_balance == old(self).deduct_fee_from_balance,
            final(self).total_fee_btc >= old(self).total_fee_btc,
            final(self).total_fee_usd >= old(self).total_fee_usd,
            final(balance)._btc_price == old(balance)._btc_price,
            final(balance).initial == old(balance).initial,
            ({
                let fb = old(self).fee_btc_due(cfg.perf_fee_mode, cfg.perf_fee_rate, *old(balance));
                let fu = old(self).fee_usd_due(cfg.perf_fee_mode, cfg.perf_fee_rate, *old(balance));
                let deduct = old(self).deduct_fee_from_balance;
                if cfg.perf_fee_rate == 0 || cfg.perf_fee_cycles == 0 {
                    &&& r == FeeOutcome::Skipped
                    &&& *final(self) == *old(self)
                    &&& *final(balance) == *old(balance)
                } else if !old(self).fees_fit(fb, fu, *old(balance)) {
                    &&& r == FeeOutcome::OutOfRange
                    &&& *final(self) == *old(self)
                    &&& *final(balance) == *old(balance)
                } else {
                    &&& r == (FeeOutcome::Charged { fee_btc: fb as i64, fee_usd: fu as i64 })
                    &&& final(self).total_fee_btc == old(self).total_fee_btc + fb
                    &&& final(self).total_fee_usd == old(self).total_fee_usd + fu
                    &&& final(balance).btc_balance == (if deduct { old(balance).btc_balance - fb } else { old(balance).btc_balance as int })
                    &&& final(balance).usd_balance == (if deduct { old(balance).usd_balance - fu } else { old(balance).usd_balance as int })
                    &&& cfg.perf_fee_mode == PerfFeeMode::HighWaterMark ==> {
                        &&& final(self).high_water_mark_btc == final(balance).btc_balance
                        &&& final(self).high_water_mark_usd == final(balance).usd_balance
                    }
                    &&& cfg.perf_fee_mode == PerfFeeMode::Cumulative ==> {
                        &&& final(self).high_water_mark_btc == old(self).high_water_mark_btc
                        &&& final(self).high_water_mark_usd == old(self).high_water_mark_usd
                        &&& final(self).total_fee_btc == max_int(
                            old(self).total_fee_btc as int,
                            desired_fee(old(balance).btc_balance, old(self).initial_balance.btc_balance, cfg.perf_fee_rate),
                        )
                        &&& final(self).total_fee_usd == max_int(
                            old(self).total_fee_usd as int,
                            desired_fee(old(balance).usd_balance, old(self).initial_balance.usd_balance, cfg.perf_fee_rate),
                        )
                    }
                }
            }),
    {
        if cfg.perf_fee_rate == 0 || cfg.perf_fee_cycles == 0 {
            return FeeOutcome::Skipped;
        }
        let rate = cfg.perf_fee_rate;
        let (fb, fu) = match cfg.perf_fee_mode {
            PerfFeeMode::HighWaterMark => (
                gain_fee(balance.btc_balance, self.high_water_mark_btc, rate),
                gain_fee(balance.usd_balance, self.high_water_mark_usd, rate),
            ),
            PerfFeeMode::Cumulative => {
                let db = gain_fee(balance.btc_balance, self.initial_balance.btc_balance, rate);
                let du = gain_fee(balance.usd_balance, self.initial_balance.usd_balance, rate);
                let cb = self.total_fee_btc as u128;
                let cu = self.total_fee_usd as u128;
                (if db > cb { db - cb } else { 0 }, if du > cu { du - cu } else { 0 })
            },
        };
        assert(fb == self.fee_btc_due(cfg.perf_fee_mode, rate, *balance));
        assert(fu == self.fee_usd_due(cfg.perf_fee_mode, rate, *balance));
        if fb > i64::MAX as u128 || fu > i64::MAX as u128 {
            return FeeOutcome::OutOfRange;
        }
        let fb = fb as i64;
        let fu = fu as i64;
        if fb > i64::MAX - self.total_fee_btc || fu > i64::MAX - self.total_fee_usd {
            return FeeOutcome::OutOfRange;
        }
        if self.deduct_fee_from_balance && (balance.btc_balance < i64::MIN + fb || balance.usd_balance < i64::MIN
            + fu) {
            return FeeOutcome::OutOfRange;
        }
        if self.deduct_fee_from_balance {
            balance.btc_balance = balance.btc_balance - fb;
            balance.usd_balance = balance.usd_balance - fu;
        }
        self.total_fee_btc = self.total_fee_btc + fb;
        self.total_fee_usd = self.total_fee_usd + fu;
        if cfg.perf_fee_mode == PerfFeeMode::HighWaterMark {
            self.high_water_mark_btc = balance.btc_balance;
            self.high_water_mark_usd = balance.usd_balance;
        }
        FeeOutcome::Charged { fee_btc: fb, fee_usd: fu }
    }
}

/// `max(0, current - reference) * rate`, rounded down to units of `1 / SCALE`.
fn gain_fee(current: i64, reference: i64, rate: u64) -> (r: u128)
    ensures
        r == max_int(0, current - reference) * rate / scale(),
{
    if current > reference {
        let gain = (current as i128 - reference as i128) as u64;
        mul_wide(gain, rate) / (SCALE as u128)
    } else {
        assert(max_int(0, current - reference) == 0);
        assert(0 * (rate as int) == 0) by (nonlinear_arith);
        0
    }
}

} // verus!
