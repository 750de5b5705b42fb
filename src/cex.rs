//! Logic shared by the exchange clients: request signing and the replay of
//! recorded prices.
pub mod candles;
pub mod simulate;
pub mod sign;
