//! Replay of recorded daily prices in place of an exchange.
use vstd::prelude::*;
use vstd::string::StrSliceExecFns;
use crate::fixed::{mul_wide, SCALE};
use crate::order::{OrderResponse, Side};

verus! {

broadcast use vstd::seq_lib::group_to_multiset_ensures;

/// `a` comes strictly before `b` in lexicographic order of characters.
pub open spec fn text_lt(a: Seq<char>, b: Seq<char>) -> bool
    decreases a.len(),
{
    if a.len() == 0 {
        b.len() > 0
    } else if b.len() == 0 {
        false
    } else if a[0] != b[0] {
        (a[0] as u32) < (b[0] as u32)
    } else {
        text_lt(a.drop_first(), b.drop_first())
    }
}

/// Lexicographic order is transitive.
pub proof fn lemma_text_lt_transitive(a: Seq<char>, b: Seq<char>, c: Seq<char>)
    requires
        text_lt(a, b),
        text_lt(b, c),
    ensures
        text_lt(a, c),
    decreases a.len(),
{
    if a.len() > 0 && b.len() > 0 && c.len() > 0 && a[0] == b[0] && b[0] == c[0] {
        lemma_text_lt_transitive(a.drop_first(), b.drop_first(), c.drop_first());
    }
}

/// No text sorts before itself.
pub proof fn lemma_text_lt_irreflexive(a: Seq<char>)
    ensures
        !text_lt(a, a),
    decreases a.len(),
{
    if a.len() > 0 {
        lemma_text_lt_irreflexive(a.drop_first());
    }
}

/// Records in ascending order of date.
pub open spec fn sorted_by_date(data: Seq<(String, u64)>) -> bool {
    forall|i: int, j: int| 0 <= i < j < data.len() ==> !text_lt(#[trigger] data[j].0@, #[trigger] data[i].0@)
}

/// Whether `a` sorts strictly before `b`.
fn text_less(a: &str, b: &str) -> (r: bool)
    ensures
        r == text_lt(a@, b@),
{
    let la = a.unicode_len();
    let lb = b.unicode_len();
    let mut i: usize = 0;
    assert(a@.subrange(0, la as int) =~= a@);
    assert(b@.subrange(0, lb as int) =~= b@);
    while i < la && i < lb
        invariant
            la == a@.len(),
            lb == b@.len(),
            i <= la,
            i <= lb,
            text_lt(a@, b@) == text_lt(a@.subrange(i as int, la as int), b@.subrange(i as int, lb as int)),
        decreases la - i,
    {
        let ca = a.get_char(i);
        let cb = b.get_char(i);
        let ghost sa = a@.subrange(i as int, la as int);
        let ghost sb = b@.subrange(i as int, lb as int);
        assert(sa[0] == ca && sb[0] == cb);
        if ca != cb {
            return (ca as u32) < (cb as u32);
        }
        assert(sa.drop_first() =~= a@.subrange(i + 1, la as int));
        assert(sb.drop_first() =~= b@.subrange(i + 1, lb as int));
        i = i + 1;
    }
    i == la && i < lb
}

/// Year, month and day of a start date written as the number `yyyymmdd`.
pub fn start_date_parts(simulate_day: u32) -> (r: (i32, u32, u32))
    ensures
        r.0 == simulate_day / 10_000,
        r.1 == (simulate_day / 100) % 100,
        r.2 == simulate_day % 100,
{
    ((simulate_day / 10_000) as i32, (simulate_day / 100) % 100, simulate_day % 100)
}

/// Why the replay could not answer.
#[derive(Debug, Clone, Copy, PartialEq, Eq, Structural)]
pub enum ReplayError {
    /// Every recorded day has already been replayed.
    OutOfData,
    /// The synthetic fee does not fit in 64 bits.
    FeeOutOfRange,
}

/// Recorded `(date, price)` pairs, oldest first, and a forward-only cursor on
/// the day that `get_price` returns next.
#[derive(Debug)]
pub struct SimulateClient {
    pub day: usize,
    pub data: Vec<(String, u64)>,
}

/// The prices of `data[from..to]`.
pub open spec fn prices_between(data: Seq<(String, u64)>, from: int, to: int) -> Seq<u64> {
    data.subrange(from, to).map_values(|e: (String, u64)| e.1)
}

/// The synthetic fee of an order: 0.2 percent of its value, rounded down.
pub open spec fn replay_fee(amount: u64, price: u64) -> int {
    amount * price * 2 / (1000 * SCALE as int)
}

impl SimulateClient {
    /// The records are sorted and the cursor is within them or just past them.
    pub open spec fn wf(&self) -> bool {
        self.day <= self.data@.len() && sorted_by_date(self.data@)
    }

    /// Sorts the records by date and puts the cursor `days_back`
    /// days before the end, or at the start when there are fewer.
    pub fn new(entries: Vec<(String, u64)>, days_back: u32) -> (r: Self)
        ensures
            r.wf(),
            r.data@.to_multiset() == entries@.to_multiset(),
            r.day == (if days_back >= entries@.len() { 0 } else { entries@.len() - days_back }),
    {
        let ghost orig = entries@;
        let n = entries.len();
        let mut rest = entries;
        let mut data: Vec<(String, u64)> = Vec::new();
        let mut done: usize = 0;
        while done < n
            invariant
                n == orig.len(),
                done <= n,
                rest@ == orig.subrange(done as int, n as int),
                data@.len() == done,
                data@.to_multiset() == orig.subrange(0, done as int).to_multiset(),
                sorted_by_date(data@),
            decreases n - done,
        {
            assert(rest@[0] == orig[done as int]);
            let entry = rest.remove(0);
            assert(rest@ =~= orig.subrange(done + 1, n as int));
            // position after every record that is not later than `entry`
            let mut k: usize = 0;
            while k < data.len() && !text_less(entry.0.as_str(), data[k].0.as_str())
                invariant
                    k <= data@.len(),
                    forall|i: int| 0 <= i < k ==> !text_lt(entry.0@, #[trigger] data@[i].0@),
                decreases data@.len() - k,
            {
                k = k + 1;
            }
            let ghost before = data@;
            data.insert(k, entry);
            proof {
                assert(data@ == before.insert(k as int, entry));
                assert forall|i: int, j: int| 0 <= i < j < data@.len() implies !text_lt(
                    #[trigger] data@[j].0@,
                    #[trigger] data@[i].0@,
                ) by {
                    if j == k {
                        assert(data@[i] == before[i] && data@[j] == entry);
                        assert(!text_lt(entry.0@, before[i].0@));
                    } else if i == k {
                        // entry sorts before before[k], which is not after before[j - 1]
                        assert(data@[i] == entry && data@[j] == before[j - 1]);
                        assert(text_lt(entry.0@, before[k as int].0@));
                        if j - 1 > k {
                            assert(!text_lt(before[j - 1].0@, before[k as int].0@));
                        }
                        if text_lt(before[j - 1].0@, entry.0@) {
                            lemma_text_lt_transitive(before[j - 1].0@, entry.0@, before[k as int].0@);
                            lemma_text_lt_irreflexive(before[k as int].0@);
                        }
                    } else {
                        let bi = if i < k { i } else { i - 1 };
                        let bj = if j < k { j } else { j - 1 };
                        assert(data@[i] == before[bi] && data@[j] == before[bj]);
                    }
                }
                assert(orig.subrange(0, done + 1) =~= orig.subrange(0, done as int).push(orig[done as int]));
            }
            done = done + 1;
        }
        assert(orig.subrange(0, n as int) =~= orig);
        let start = if (days_back as usize) >= n { 0 } else { n - days_back as usize };
        SimulateClient { day: start, data }
    }

    /// The price at the cursor, moving the cursor one day on; an error once
    /// every day has been replayed.
    pub fn get_price(&mut self) -> (r: Result<u64, ReplayError>)
        requires
            old(self).wf(),
        ensures
            final(self).wf(),
            final(self).data@ == old(self).data@,
            old(self).day < old(self).data@.len() ==> r == Ok::<u64, ReplayError>(old(self).data@[old(self).day as int].1)
                && final(self).day == old(self).day + 1,
            old(self).day >= old(self).data@.len() ==> r == Err::<u64, ReplayError>(ReplayError::OutOfData)
                && final(self).day == old(self).day,
    {
        if self.day >= self.data.len() {
            return Err(ReplayError::OutOfData);
        }
        let price = self.data[self.day].1;
        self.day = self.day + 1;
        Ok(price)
    }

    /// The prices of the `days` days before the cursor, oldest first (fewer
    /// near the start); the cursor does not move.
    pub fn get_historical(&self, days: u32) -> (r: Vec<u64>)
        requires
            self.wf(),
        ensures
            r@ == prices_between(
                self.data@,
                if days as int >= self.day { 0 } else { self.day - days },
                self.day as int,
            ),
    {
        let start = if days as usize >= self.day { 0 } else { self.day - days as usize };
        let mut prices: Vec<u64> = Vec::new();
        let mut i = start;
        while i < self.day
            invariant
                start <= i <= self.day <= self.data@.len(),
                prices@ == prices_between(self.data@, start as int, i as int),
            decreases self.day - i,
        {
            prices.push(self.data[i].1);
            i = i + 1;
            assert(prices@ =~= prices_between(self.data@, start as int, i as int));
        }
        prices
    }

    /// A synthetic fill: the hint as price, the requested amount, no coin fee
    /// and a USD fee of 0.2 percent of the value.
    pub fn put_order(&self, side: Side, amount: u64, price: Option<u64>) -> (r: Result<OrderResponse, ReplayError>)
        requires
            price is Some,
        ensures
            replay_fee(amount, price->0) <= i64::MAX ==> r == Ok::<OrderResponse, ReplayError>(
                OrderResponse {
                    executed_price: price->0,
                    executed_amount: amount,
                    btc_fee: 0,
                    usd_fee: replay_fee(amount, price->0) as i64,
                },
            ),
            replay_fee(amount, price->0) > i64::MAX ==> r == Err::<OrderResponse, ReplayError>(
                ReplayError::FeeOutOfRange,
            ),
    {
        let price = price.unwrap();
        let value = mul_wide(amount, price);
        proof {
            crate::fixed::lemma_mul_u64_fits(amount, price);
        }
        let fee = value / 50_000_000_000;
        assert(fee == replay_fee(amount, price)) by {
            vstd::arithmetic::div_mod::lemma_div_denominator(value as int, 2, 25_000_000_000);
            assert(value * 2 / 100_000_000_000 == value / 50_000_000_000) by {
                vstd::arithmetic::div_mod::lemma_div_multiples_vanish_fancy(value as int, 0, 2);
                assert(value * 2 == 2 * value);
                vstd::arithmetic::div_mod::lemma_div_denominator(2 * value, 2, 50_000_000_000);
                vstd::arithmetic::div_mod::lemma_div_multiples_vanish(value as int, 2);
            }
        }
        if fee > i64::MAX as u128 {
            return Err(ReplayError::FeeOutOfRange);
        }
        Ok(OrderResponse { executed_price: price, executed_amount: amount, btc_fee: 0, usd_fee: fee as i64 })
    }
}

} // verus!
