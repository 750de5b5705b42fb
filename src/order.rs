//! Orders placed with an exchange and what it reports back.
use vstd::prelude::*;
use crate::fixed::{div_floor_i128, scale, SCALE};

verus! {

/// Direction of a market order.
#[derive(Debug, Clone, Copy, PartialEq, Eq, Structural)]
pub enum Side {
    Buy,
    Sell,
}

/// What an exchange reports for an executed order, in units of `1 / SCALE`.
#[derive(Debug, Clone, Copy, PartialEq, Eq, Structural)]
pub struct OrderResponse {
    pub executed_price: u64,
    pub executed_amount: u64,
    pub btc_fee: i64,
    pub usd_fee: i64,
}

/// USD worth of a fee charged in the coin, `fee * price`, rounded down.
pub open spec fn fee_value(fee: i64, price: u64) -> int {
    fee * price / scale()
}

/// See `fee_value`; `None` when the worth does not fit in 64 bits.
pub fn coin_fee_value(fee: i64, price: u64) -> (r: Option<i64>)
    ensures
        i64::MIN <= fee_value(fee, price) <= i64::MAX ==> r == Some(fee_value(fee, price) as i64),
        !(i64::MIN <= fee_value(fee, price) <= i64::MAX) ==> r is None,
{
    assert(-0x8000_0000_0000_0000 * 0xffff_ffff_ffff_ffff <= fee * price <= 0x7fff_ffff_ffff_ffff
        * 0xffff_ffff_ffff_ffff) by (nonlinear_arith)
        requires
            -0x8000_0000_0000_0000 <= fee <= 0x7fff_ffff_ffff_ffff,
            0 <= price <= 0xffff_ffff_ffff_ffff,
    ;
    let v = div_floor_i128(fee as i128 * price as i128, SCALE as u128);
    if i64::MIN as i128 <= v && v <= i64::MAX as i128 {
        Some(v as i64)
    } else {
        None
    }
}

} // verus!
