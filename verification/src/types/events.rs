//! System events and the reasons for balance changes. Times are milliseconds since the
//! Unix epoch.
use vstd::prelude::*;
use crate::types::common::{ExchangeType, MarketType};

verus! {

/// A notable event of the system.
#[derive(Debug, Clone)]
pub enum SystemEvent {
    Connection { exchange: ExchangeType, market_type: MarketType, connected: bool, timestamp: u64 },
    Subscription {
        exchange: ExchangeType,
        market_type: MarketType,
        symbol: String,
        subscribed: bool,
        timestamp: u64,
    },
    Error { exchange: ExchangeType, market_type: MarketType, error: String, timestamp: u64 },
    DataQuality {
        exchange: ExchangeType,
        market_type: MarketType,
        symbol: String,
        latency_ms: u64,
        timestamp: u64,
    },
    /// A price gap between two exchanges; the profit is in basis points.
    ArbitrageOpportunity {
        symbol: String,
        buy_exchange: ExchangeType,
        sell_exchange: ExchangeType,
        profit_bps: i64,
        timestamp: u64,
    },
    ServicePaused { exchange: ExchangeType, market_type: MarketType, reason: String, timestamp: u64 },
    ServiceDegraded { exchange: ExchangeType, market_type: MarketType, reason: String, timestamp: u64 },
    ConnectorInitialized { connector_id: String, exchange: ExchangeType, market_type: MarketType },
    ConnectorConnected { connector_id: String, exchange: ExchangeType, market_type: MarketType },
    ConnectorDisconnected { connector_id: String, exchange: ExchangeType, market_type: MarketType },
}

/// A system event with its texts as character sequences.
pub enum SystemEventView {
    Connection { exchange: ExchangeType, market_type: MarketType, connected: bool, timestamp: u64 },
    Subscription {
        exchange: ExchangeType,
        market_type: MarketType,
        symbol: Seq<char>,
        subscribed: bool,
        timestamp: u64,
    },
    Error { exchange: ExchangeType, market_type: MarketType, error: Seq<char>, timestamp: u64 },
    DataQuality {
        exchange: ExchangeType,
        market_type: MarketType,
        symbol: Seq<char>,
        latency_ms: u64,
        timestamp: u64,
    },
    ArbitrageOpportunity {
        symbol: Seq<char>,
        buy_exchange: ExchangeType,
        sell_exchange: ExchangeType,
        profit_bps: i64,
        timestamp: u64,
    },
    ServicePaused { exchange: ExchangeType, market_type: MarketType, reason: Seq<char>, timestamp: u64 },
    ServiceDegraded { exchange: ExchangeType, market_type: MarketType, reason: Seq<char>, timestamp: u64 },
    ConnectorInitialized { connector_id: Seq<char>, exchange: ExchangeType, market_type: MarketType },
    ConnectorConnected { connector_id: Seq<char>, exchange: ExchangeType, market_type: MarketType },
    ConnectorDisconnected { connector_id: Seq<char>, exchange: ExchangeType, market_type: MarketType },
}

impl View for SystemEvent {
    type V = SystemEventView;

    open spec fn view(&self) -> SystemEventView {
        match self {
            SystemEvent::Connection { exchange, market_type, connected, timestamp } =>
                SystemEventView::Connection {
                    exchange: *exchange,
                    market_type: *market_type,
                    connected: *connected,
                    timestamp: *timestamp,
                },
            SystemEvent::Subscription { exchange, market_type, symbol, subscribed, timestamp } =>
                SystemEventView::Subscription {
                    exchange: *exchange,
                    market_type: *market_type,
                    symbol: symbol@,
                    subscribed: *subscribed,
                    timestamp: *timestamp,
                },
            SystemEvent::Error { exchange, market_type, error, timestamp } => SystemEventView::Error {
                exchange: *exchange,
                market_type: *market_type,
                error: error@,
                timestamp: *timestamp,
            },
            SystemEvent::DataQuality { exchange, market_type, symbol, latency_ms, timestamp } =>
                SystemEventView::DataQuality {
                    exchange: *exchange,
                    market_type: *market_type,
                    symbol: symbol@,
                    latency_ms: *latency_ms,
                    timestamp: *timestamp,
                },
            SystemEvent::ArbitrageOpportunity { symbol, buy_exchange, sell_exchange, profit_bps, timestamp } =>
                SystemEventView::ArbitrageOpportunity {
                    symbol: symbol@,
                    buy_exchange: *buy_exchange,
                    sell_exchange: *sell_exchange,
                    profit_bps: *profit_bps,
                    timestamp: *timestamp,
                },
            SystemEvent::ServicePaused { exchange, market_type, reason, timestamp } =>
                SystemEventView::ServicePaused {
                    exchange: *exchange,
                    market_type: *market_type,
                    reason: reason@,
                    timestamp: *timestamp,
                },
            SystemEvent::ServiceDegraded { exchange, market_type, reason, timestamp } =>
                SystemEventView::ServiceDegraded {
                    exchange: *exchange,
                    market_type: *market_type,
                    reason: reason@,
                    timestamp: *timestamp,
                },
            SystemEvent::ConnectorInitialized { connector_id, exchange, market_type } =>
                SystemEventView::ConnectorInitialized {
                    connector_id: connector_id@,
                    exchange: *exchange,
                    market_type: *market_type,
                },
            SystemEvent::ConnectorConnected { connector_id, exchange, market_type } =>
                SystemEventView::ConnectorConnected {
                    connector_id: connector_id@,
                    exchange: *exchange,
                    market_type: *market_type,
                },
            SystemEvent::ConnectorDisconnected { connector_id, exchange, market_type } =>
                SystemEventView::ConnectorDisconnected {
                    connector_id: connector_id@,
                    exchange: *exchange,
                    market_type: *market_type,
                },
        }
    }
}

/// Why a balance changed.
#[derive(Debug, Clone)]
pub enum BalanceChangeReason {
    Trade,
    FundingFee,
    Transfer,
    Other(String),
}

} // verus!
