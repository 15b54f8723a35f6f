//! The LBank spot connector's decisions: its connection state, which requests it
//! refuses, the quality it reports for each state, its emergency ping answer, and which
//! subscriptions a market-data request turns into. Latency is in microseconds, loss and
//! stability in millionths, times in milliseconds.
use vstd::prelude::*;
use crate::connectors::common::adaptive_timeout::AdaptiveTimeoutManager;
use crate::connectors::common::emergency_ping::{spec_initial_state, EmergencyPingManager};
use crate::text::{owned, spec_decimal};
use crate::types::common::DataType;
use crate::types::config::{ConnectionQuality, ConnectionStatus};
use crate::types::errors::ConnectorError;
use crate::types::exchange::{ExchangeType, MarketType};

verus! {

/// The quality the connector reports in a state: good when connected, weak while
/// connecting, poor otherwise.
pub open spec fn spec_lbank_quality(s: ConnectionStatus, now: u64) -> ConnectionQuality {
    match s {
        ConnectionStatus::Connected => ConnectionQuality { latency_us: 60_000, packet_loss_ppm: 0, stability_ppm: 850_000, last_updated: now },
        ConnectionStatus::Connecting | ConnectionStatus::Reconnecting => ConnectionQuality {
            latency_us: 250_000,
            packet_loss_ppm: 150_000,
            stability_ppm: 250_000,
            last_updated: now,
        },
        _ => ConnectionQuality { latency_us: 1_200_000, packet_loss_ppm: 600_000, stability_ppm: 50_000, last_updated: now },
    }
}

/// The subscriptions of a market-data request: for each symbol in order, each of its
/// data types in order that is an order book or trades; other types are skipped.
pub open spec fn spec_market_data_plan(symbols: Seq<String>, types: Seq<DataType>, n: int) -> Seq<(Seq<char>, DataType)>
    decreases n,
{
    if n <= 0 {
        seq![]
    } else {
        spec_market_data_plan(symbols, types, n - 1) + feed_pairs(symbols[n - 1]@, types)
    }
}

/// The pairs of one symbol with each of the types that are an order book or trades.
pub open spec fn feed_pairs(symbol: Seq<char>, types: Seq<DataType>) -> Seq<(Seq<char>, DataType)>
    decreases types.len(),
{
    if types.len() == 0 {
        seq![]
    } else {
        let d = types.last();
        feed_pairs(symbol, types.drop_last()) + if d == DataType::OrderBook || d == DataType::Trade {
            seq![(symbol, d)]
        } else {
            seq![]
        }
    }
}

/// The state of the LBank connector and its upkeep managers.
#[derive(Debug)]
pub struct LBankCore {
    pub status: ConnectionStatus,
    pub emergency_ping_manager: EmergencyPingManager,
    pub adaptive_timeout_manager: AdaptiveTimeoutManager,
}

impl LBankCore {
    /// A disconnected connector with default upkeep managers.
    pub fn new() -> (r: Self)
        ensures
            r.status == ConnectionStatus::Disconnected,
            r.emergency_ping_manager.state == spec_initial_state(),
            r.adaptive_timeout_manager.is_fresh(),
    {
        LBankCore {
            status: ConnectionStatus::Disconnected,
            emergency_ping_manager: EmergencyPingManager::with_default_config(),
            adaptive_timeout_manager: AdaptiveTimeoutManager::with_default_config(),
        }
    }

    /// The exchange.
    pub fn get_exchange_type(&self) -> (r: ExchangeType)
        ensures
            r == ExchangeType::LBank,
    {
        ExchangeType::LBank
    }

    /// The market.
    pub fn get_market_type(&self) -> (r: MarketType)
        ensures
            r == MarketType::Spot,
    {
        MarketType::Spot
    }

    /// The exchange's name.
    pub fn get_exchange_name(&self) -> (r: &'static str)
        ensures
            r@ == "LBank"@,
    {
        "LBank"
    }

    /// Connects: the upkeep managers start over and the state is connected.
    pub fn connect(&mut self)
        ensures
            final(self).status == ConnectionStatus::Connected,
            final(self).emergency_ping_manager.state == spec_initial_state(),
            final(self).emergency_ping_manager.config == old(self).emergency_ping_manager.config,
            final(self).adaptive_timeout_manager.is_fresh(),
            final(self).adaptive_timeout_manager.config == old(self).adaptive_timeout_manager.config,
    {
        self.emergency_ping_manager.reset();
        self.adaptive_timeout_manager.reset();
        self.status = ConnectionStatus::Connected;
    }

    /// Disconnects.
    pub fn disconnect(&mut self)
        ensures
            final(self).status == ConnectionStatus::Disconnected,
            final(self).emergency_ping_manager == old(self).emergency_ping_manager,
    {
        self.status = ConnectionStatus::Disconnected;
    }

    /// The connection state.
    pub fn get_connection_status(&self) -> (r: ConnectionStatus)
        ensures
            r == self.status,
    {
        self.status
    }

    /// Whether an order-book subscription may go ahead: only while connected.
    pub fn check_subscribe_orderbook(&self) -> (r: Result<(), ConnectorError>)
        ensures
            r is Ok <==> self.status == ConnectionStatus::Connected,
            r matches Err(e) ==> (e matches ConnectorError::ConnectionLost(m) && m@ == "WebSocket not connected"@),
    {
        if self.status != ConnectionStatus::Connected {
            return Err(ConnectorError::ConnectionLost(owned("WebSocket not connected")));
        }
        Ok(())
    }

    /// The quality reported at `now`.
    pub fn get_connection_quality_at(&self, now: u64) -> (r: ConnectionQuality)
        ensures
            r == spec_lbank_quality(self.status, now),
    {
        match self.status {
            ConnectionStatus::Connected => ConnectionQuality { latency_us: 60_000, packet_loss_ppm: 0, stability_ppm: 850_000, last_updated: now },
            ConnectionStatus::Connecting | ConnectionStatus::Reconnecting => ConnectionQuality {
                latency_us: 250_000,
                packet_loss_ppm: 150_000,
                stability_ppm: 250_000,
                last_updated: now,
            },
            _ => ConnectionQuality { latency_us: 1_200_000, packet_loss_ppm: 600_000, stability_ppm: 50_000, last_updated: now },
        }
    }
}

/// The answer to an emergency ping in milliseconds: 60 when one is due and the socket is
/// connected, an error when due and not connected, 120 when none is due.
pub fn emergency_ping_answer(due: bool, socket_connected: bool) -> (r: Result<u64, ConnectorError>)
    ensures
        due && socket_connected ==> r == Ok::<u64, ConnectorError>(60),
        due && !socket_connected ==> (r matches Err(ConnectorError::ConnectionLost(m)) && m@ == "WebSocket未连接"@),
        !due ==> r == Ok::<u64, ConnectorError>(120),
{
    if due {
        if socket_connected {
            Ok(60)
        } else {
            Err(ConnectorError::ConnectionLost(owned("WebSocket未连接")))
        }
    } else {
        Ok(120)
    }
}

/// Placing an order: not offered by this connector.
pub fn lbank_place_order() -> (r: ConnectorError)
    ensures
        r matches ConnectorError::OrderPlacementFailed(m) && m@ == "Trading not implemented for LBank connector"@,
{
    ConnectorError::OrderPlacementFailed(owned("Trading not implemented for LBank connector"))
}

/// Cancelling an order: not offered by this connector.
pub fn lbank_cancel_order() -> (r: ConnectorError)
    ensures
        r matches ConnectorError::OrderCancellationFailed(m) && m@ == "Trading not implemented for LBank connector"@,
{
    ConnectorError::OrderCancellationFailed(owned("Trading not implemented for LBank connector"))
}

/// The state of an order: not offered by this connector.
pub fn lbank_order_status() -> (r: ConnectorError)
    ensures
        r matches ConnectorError::InvalidResponse(m) && m@ == "Trading not implemented for LBank connector"@,
{
    ConnectorError::InvalidResponse(owned("Trading not implemented for LBank connector"))
}

/// The account balance: not offered by this connector.
pub fn lbank_account_balance() -> (r: ConnectorError)
    ensures
        r matches ConnectorError::DataParsingError(m) && m@ == "Account balance not implemented for LBank connector"@,
{
    ConnectorError::DataParsingError(owned("Account balance not implemented for LBank connector"))
}

/// Positions: not offered by this connector.
pub fn lbank_positions() -> (r: ConnectorError)
    ensures
        r matches ConnectorError::ServiceUnavailable(m) && m@ == "Positions not supported for LBank"@,
{
    ConnectorError::ServiceUnavailable(owned("Positions not supported for LBank"))
}

/// The error for a symbol without an order book.
pub fn missing_orderbook(symbol: &str) -> (r: ConnectorError)
    ensures
        r matches ConnectorError::InvalidResponse(m) && m@ == "No orderbook data available for "@ + symbol@,
{
    ConnectorError::InvalidResponse(owned("No orderbook data available for ").concat(symbol))
}

/// The subscriptions that a market-data request turns into, in order.
pub fn market_data_plan(symbols: &Vec<String>, data_types: &Vec<DataType>) -> (r: Vec<(String, DataType)>)
    ensures
        r@.map_values(|p: (String, DataType)| (p.0@, p.1)) == spec_market_data_plan(symbols@, data_types@, symbols@.len() as int),
{
    let mut r: Vec<(String, DataType)> = Vec::new();
    let n = symbols.len();
    let m = data_types.len();
    let mut i: usize = 0;
    while i < n
        invariant
            n == symbols@.len(),
            m == data_types@.len(),
            i <= n,
            r@.map_values(|p: (String, DataType)| (p.0@, p.1)) == spec_market_data_plan(symbols@, data_types@, i as int),
        decreases n - i,
    {
        let ghost r0 = r@.map_values(|p: (String, DataType)| (p.0@, p.1));
        let mut j: usize = 0;
        while j < m
            invariant
                n == symbols@.len(),
                m == data_types@.len(),
                i < n,
                j <= m,
                r@.map_values(|p: (String, DataType)| (p.0@, p.1)) == r0 + feed_pairs(symbols@[i as int]@, data_types@.take(j as int)),
            decreases m - j,
        {
            let d = data_types[j];
            let ghost before = r@;
            proof {
                assert(data_types@.take(j + 1).drop_last() =~= data_types@.take(j as int));
                assert(data_types@.take(j + 1).last() == d);
            }
            match d {
                DataType::OrderBook | DataType::Trade => {
                    r.push((owned(symbols[i].as_str()), d));
                    assert(r@.map_values(|p: (String, DataType)| (p.0@, p.1)) =~= before.map_values(|p: (String, DataType)| (p.0@, p.1)).push(
                        (symbols@[i as int]@, d),
                    ));
                },
                _ => {},
            }
            assert(r@.map_values(|p: (String, DataType)| (p.0@, p.1)) =~= r0 + feed_pairs(symbols@[i as int]@, data_types@.take(j + 1)));
            j = j + 1;
        }
        assert(data_types@.take(m as int) =~= data_types@);
        i = i + 1;
    }
    r
}

} // verus!
