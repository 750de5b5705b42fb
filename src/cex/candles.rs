//! Daily candles returned by the live exchanges, reduced to one price a day.
use vstd::prelude::*;

verus! {

broadcast use vstd::seq_lib::group_to_multiset_ensures;

/// The price of a candle: the mean of its high and low, rounded down.
pub fn candle_price(high: u64, low: u64) -> (r: u64)
    ensures
        r == (high + low) / 2,
{
    ((high as u128 + low as u128) / 2) as u64
}

/// Candles in ascending order of their opening time.
pub open spec fn sorted_by_time(candles: Seq<(i64, u64)>) -> bool {
    forall|i: int, j: int| 0 <= i < j < candles.len() ==> (#[trigger] candles[i]).0 <= (#[trigger] candles[j]).0
}

/// The same candles, oldest first.
pub fn sort_by_time(candles: Vec<(i64, u64)>) -> (r: Vec<(i64, u64)>)
    ensures
        sorted_by_time(r@),
        r@.to_multiset() == candles@.to_multiset(),
{
    let ghost orig = candles@;
    let n = candles.len();
    let mut sorted: Vec<(i64, u64)> = Vec::new();
    let mut done: usize = 0;
    while done < n
        invariant
            n == orig.len(),
            done <= n,
            sorted@.len() == done,
            sorted@.to_multiset() == orig.subrange(0, done as int).to_multiset(),
            sorted_by_time(sorted@),
            candles@ == orig,
        decreases n - done,
    {
        let c = candles[done];
        let mut k: usize = 0;
        while k < sorted.len() && sorted[k].0 <= c.0
            invariant
                k <= sorted@.len(),
                forall|i: int| 0 <= i < k ==> (#[trigger] sorted@[i]).0 <= c.0,
            decreases sorted@.len() - k,
        {
            k = k + 1;
        }
        let ghost before = sorted@;
        sorted.insert(k, c);
        proof {
            assert forall|i: int, j: int| 0 <= i < j < sorted@.len() implies (#[trigger] sorted@[i]).0 <= (
            #[trigger] sorted@[j]).0 by {
                if j == k {
                    assert(sorted@[i] == before[i]);
                } else if i == k {
                    assert(sorted@[j] == before[j - 1]);
                    assert(before[k as int].0 > c.0);
                    if j - 1 > k {
                        assert(before[k as int].0 <= before[j - 1].0);
                    }
                } else {
                    let bi = if i < k { i } else { i - 1 };
                    let bj = if j < k { j } else { j - 1 };
                    assert(sorted@[i] == before[bi] && sorted@[j] == before[bj]);
                }
            }
            assert(orig.subrange(0, done + 1) =~= orig.subrange(0, done as int).push(orig[done as int]));
        }
        done = done + 1;
    }
    assert(orig.subrange(0, n as int) =~= orig);
    sorted
}

} // verus!
