//! Exchanges and the markets they serve.
use vstd::prelude::*;

verus! {

/// Exchanges that the connectors speak to.
#[derive(Debug, Clone, Copy, PartialEq, Eq, Hash, Structural)]
pub enum ExchangeType {
    Phemex,
    LBank,
    XtCom,
    TapBit,
    Hbit,
    Batonex,
    CoinCatch,
    Binance,
    BinanceFutures,
    BybitFutures,
    OkxFutures,
}

/// Kind of market an exchange serves.
#[derive(Debug, Clone, Copy, PartialEq, Eq, Hash, Structural)]
pub enum MarketType {
    Spot,
    Futures,
}

/// The market an exchange serves: the three futures venues trade futures, every other one spot.
pub open spec fn spec_market_of(e: ExchangeType) -> MarketType {
    match e {
        ExchangeType::BinanceFutures | ExchangeType::BybitFutures | ExchangeType::OkxFutures => MarketType::Futures,
        _ => MarketType::Spot,
    }
}

/// The upper-case display name of an exchange.
pub open spec fn spec_exchange_name(e: ExchangeType) -> Seq<char> {
    match e {
        ExchangeType::Phemex => "PHEMEX"@,
        ExchangeType::LBank => "LBANK"@,
        ExchangeType::XtCom => "XTCOM"@,
        ExchangeType::TapBit => "TAPBIT"@,
        ExchangeType::Hbit => "HBIT"@,
        ExchangeType::Batonex => "BATONEX"@,
        ExchangeType::CoinCatch => "COINCATCH"@,
        ExchangeType::Binance => "BINANCE"@,
        ExchangeType::BinanceFutures => "BINANCE_FUTURES"@,
        ExchangeType::BybitFutures => "BYBIT_FUTURES"@,
        ExchangeType::OkxFutures => "OKX_FUTURES"@,
    }
}

impl ExchangeType {
    /// The market this exchange serves.
    pub fn get_market_type(&self) -> (m: MarketType)
        ensures
            m == spec_market_of(*self),
    {
        match self {
            ExchangeType::BinanceFutures | ExchangeType::BybitFutures | ExchangeType::OkxFutures => MarketType::Futures,
            _ => MarketType::Spot,
        }
    }

    /// The display name, such as `BINANCE_FUTURES`.
    pub fn display_name(&self) -> (s: &'static str)
        ensures
            s@ == spec_exchange_name(*self),
    {
        match self {
            ExchangeType::Phemex => "PHEMEX",
            ExchangeType::LBank => "LBANK",
            ExchangeType::XtCom => "XTCOM",
            ExchangeType::TapBit => "TAPBIT",
            ExchangeType::Hbit => "HBIT",
            ExchangeType::Batonex => "BATONEX",
            ExchangeType::CoinCatch => "COINCATCH",
            ExchangeType::Binance => "BINANCE",
            ExchangeType::BinanceFutures => "BINANCE_FUTURES",
            ExchangeType::BybitFutures => "BYBIT_FUTURES",
            ExchangeType::OkxFutures => "OKX_FUTURES",
        }
    }
}

impl MarketType {
    /// The display name, `SPOT` or `FUTURES`.
    pub fn display_name(&self) -> (s: &'static str)
        ensures
            s@ == (match *self {
                MarketType::Spot => "SPOT"@,
                MarketType::Futures => "FUTURES"@,
            }),
    {
        match self {
            MarketType::Spot => "SPOT",
            MarketType::Futures => "FUTURES",
        }
    }
}

} // verus!
