//! Identifiers shared by the connectors.
use vstd::prelude::*;

verus! {

/// Exchange identifiers used by the event and user-data types.
#[derive(Debug, Clone, Copy, PartialEq, Eq, Hash, Structural)]
pub enum ExchangeType {
    Binance,
    Bybit,
    OKX,
    LBank,
    XTcom,
    Tapbit,
    HBit,
    Batonex,
    Coincatch,
}

/// Market kinds.
#[derive(Debug, Clone, Copy, PartialEq, Eq, Hash, Structural)]
pub enum MarketType {
    Spot,
    Futures,
    Options,
    Margin,
}

/// Connection states, including the transitional `Disconnecting`.
#[derive(Debug, Clone, Copy, PartialEq, Eq, Structural)]
pub enum ConnectionStatus {
    Disconnected,
    Connecting,
    Connected,
    Disconnecting,
    Reconnecting,
    Error,
}

/// Kinds of data that a connector can stream.
#[derive(Debug, Clone, Copy, PartialEq, Eq, Hash, Structural)]
pub enum DataType {
    OrderBook,
    Trade,
    Kline,
    Ticker24hr,
    UserData,
}

/// Update cadence of a stream.
#[derive(Debug, Clone, Copy, PartialEq, Eq, Structural)]
pub enum UpdateSpeed {
    Slow,
    Normal,
    Fast,
}

} // verus!
