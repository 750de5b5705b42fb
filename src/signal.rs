//! Directional opinions produced by the strategies.
use vstd::prelude::*;

verus! {

/// One strategy's opinion for the current moment.
#[derive(Debug, Clone, Copy, PartialEq, Eq, Structural)]
pub enum Signal {
    Buy,
    Sell,
    Hold,
}

/// The opinion of each strategy; an entry is `None` when that strategy was
/// neither active nor weighted, and so was not computed.
#[derive(Debug, Clone, Copy, PartialEq, Eq, Structural)]
pub struct Signals {
    pub ema: Option<Signal>,
    pub rsi: Option<Signal>,
    pub grid: Option<Signal>,
    pub buy_dip: Option<Signal>,
    pub tp_o_bb: Option<Signal>,
}

} // verus!
