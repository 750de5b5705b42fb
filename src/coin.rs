//! The traded assets.
use vstd::prelude::*;

verus! {

/// An asset quoted against USD.
#[derive(Debug, Clone, Copy, PartialEq, Eq, Structural)]
pub enum Coin {
    Bitcoin,
    Ethereum,
    Solana,
    Usdt,
}

impl Coin {
    /// Ticker symbol used in exchange instrument names.
    pub fn symbol(&self) -> (r: &'static str)
        ensures
            r@ == match *self {
                Coin::Bitcoin => "BTC"@,
                Coin::Ethereum => "ETH"@,
                Coin::Solana => "SOL"@,
                Coin::Usdt => "USDT"@,
            },
    {
        match self {
            Coin::Bitcoin => "BTC",
            Coin::Ethereum => "ETH",
            Coin::Solana => "SOL",
            Coin::Usdt => "USDT",
        }
    }

    /// Identifier of the asset on CoinGecko.
    pub fn _coin_gecko_id(&self) -> (r: &'static str)
        ensures
            r@ == match *self {
                Coin::Bitcoin => "bitcoin"@,
                Coin::Ethereum => "ethereum"@,
                Coin::Solana => "solana"@,
                Coin::Usdt => "tether"@,
            },
    {
        match self {
            Coin::Bitcoin => "bitcoin",
            Coin::Ethereum => "ethereum",
            Coin::Solana => "solana",
            Coin::Usdt => "tether",
        }
    }

    /// Human-readable name of the asset.
    pub fn _name(&self) -> (r: &'static str)
        ensures
            r@ == match *self {
                Coin::Bitcoin => "Bitcoin"@,
                Coin::Ethereum => "Ethereum"@,
                Coin::Solana => "Solana"@,
                Coin::Usdt => "Tether USD"@,
            },
    {
        match self {
            Coin::Bitcoin => "Bitcoin",
            Coin::Ethereum => "Ethereum",
            Coin::Solana => "Solana",
            Coin::Usdt => "Tether USD",
        }
    }
}

} // verus!
