//! The Binance spot connector's own decisions: its settings and their check, its errors,
//! its identity and features, the state it keeps (status, counters, reconnect strategy),
//! what a status change records, its health, and how it routes WebSocket traffic into
//! system events. Durations are milliseconds.
use vstd::prelude::*;
use vstd::std_specs::convert::FromSpecImpl;
use crate::connectors::traits::modern::{
    ConnectionEvent, ConnectorFeature, ConnectorMetrics, ModernConnectionStatus, ReconnectStrategy,
};
use crate::text::{
    contains_str, decimal_text, join_texts, owned, spec_contains, spec_decimal, spec_join,
    spec_starts_with, starts_with, string_views,
};
use crate::types::common::{ExchangeType, MarketType};
use crate::types::config::ConnectionQuality;
use crate::types::errors::{spec_connector_error_text, ConnectorError};
use crate::types::events::SystemEvent;

verus! {

/// Settings of the Binance spot connector.
#[derive(Debug, Clone)]
pub struct ModernBinanceConfig {
    pub api_key: Option<String>,
    pub secret_key: Option<String>,
    pub testnet: bool,
    pub websocket_url: String,
    pub rest_api_url: String,
    pub connection_timeout_ms: u64,
    pub reconnect_interval_ms: u64,
    pub max_reconnect_attempts: u32,
    pub heartbeat_interval_ms: u64,
    pub batch_size: usize,
    pub channel_buffer_size: usize,
}

impl Default for ModernBinanceConfig {
    fn default() -> (r: Self)
        ensures
            r.api_key is None,
            r.secret_key is None,
            !r.testnet,
            r.websocket_url@ == "wss://stream.binance.com:9443/ws"@,
            r.rest_api_url@ == "https://api.binance.com"@,
            r.connection_timeout_ms == 30000,
            r.reconnect_interval_ms == 5000,
            r.max_reconnect_attempts == 5,
            r.heartbeat_interval_ms == 30000,
            r.batch_size == 10,
            r.channel_buffer_size == 1000,
    {
        ModernBinanceConfig {
            api_key: None,
            secret_key: None,
            testnet: false,
            websocket_url: owned("wss://stream.binance.com:9443/ws"),
            rest_api_url: owned("https://api.binance.com"),
            connection_timeout_ms: 30000,
            reconnect_interval_ms: 5000,
            max_reconnect_attempts: 5,
            heartbeat_interval_ms: 30000,
            batch_size: 10,
            channel_buffer_size: 1000,
        }
    }
}

/// What is wrong with the settings.
#[derive(Debug)]
pub enum BinanceConfigError {
    InvalidWebSocketUrl(String),
    InvalidRestApiUrl(String),
    InvalidConnectionTimeout,
    InvalidReconnectInterval,
    InvalidBatchSize,
}

/// The text of a settings error.
pub open spec fn spec_binance_config_error_text(e: BinanceConfigError) -> Seq<char> {
    match e {
        BinanceConfigError::InvalidWebSocketUrl(u) => "无效的WebSocket URL: "@ + u@,
        BinanceConfigError::InvalidRestApiUrl(u) => "无效的REST API URL: "@ + u@,
        BinanceConfigError::InvalidConnectionTimeout => "连接超时必须大于0"@,
        BinanceConfigError::InvalidReconnectInterval => "重连间隔必须大于0"@,
        BinanceConfigError::InvalidBatchSize => "批量大小必须大于0"@,
    }
}

impl BinanceConfigError {
    /// The text of the error.
    pub fn message(&self) -> (r: String)
        ensures
            r@ == spec_binance_config_error_text(*self),
    {
        match self {
            BinanceConfigError::InvalidWebSocketUrl(u) => owned("无效的WebSocket URL: ").concat(u.as_str()),
            BinanceConfigError::InvalidRestApiUrl(u) => owned("无效的REST API URL: ").concat(u.as_str()),
            BinanceConfigError::InvalidConnectionTimeout => owned("连接超时必须大于0"),
            BinanceConfigError::InvalidReconnectInterval => owned("重连间隔必须大于0"),
            BinanceConfigError::InvalidBatchSize => owned("批量大小必须大于0"),
        }
    }
}

/// The result of checking settings: the first of these that fails, in this order.
pub open spec fn spec_config_check(c: ModernBinanceConfig) -> Option<BinanceConfigError> {
    if !spec_starts_with(c.websocket_url@, "wss://"@) && !spec_starts_with(c.websocket_url@, "ws://"@) {
        Some(BinanceConfigError::InvalidWebSocketUrl(c.websocket_url))
    } else if !spec_starts_with(c.rest_api_url@, "https://"@) && !spec_starts_with(c.rest_api_url@, "http://"@) {
        Some(BinanceConfigError::InvalidRestApiUrl(c.rest_api_url))
    } else if c.connection_timeout_ms == 0 {
        Some(BinanceConfigError::InvalidConnectionTimeout)
    } else if c.reconnect_interval_ms == 0 {
        Some(BinanceConfigError::InvalidReconnectInterval)
    } else if c.batch_size == 0 {
        Some(BinanceConfigError::InvalidBatchSize)
    } else {
        None
    }
}

impl ModernBinanceConfig {
    /// Checks the settings: WebSocket and REST addresses with their schemes, non-zero
    /// timeout, reconnect interval and batch size.
    pub fn validate(&self) -> (r: Result<(), BinanceConfigError>)
        ensures
            r is Ok <==> spec_config_check(*self) is None,
            r matches Err(e) ==> spec_config_check(*self) matches Some(x) && spec_binance_config_error_text(e)
                == spec_binance_config_error_text(x),
    {
        if !starts_with(self.websocket_url.as_str(), "wss://") && !starts_with(self.websocket_url.as_str(), "ws://") {
            return Err(BinanceConfigError::InvalidWebSocketUrl(owned(self.websocket_url.as_str())));
        }
        if !starts_with(self.rest_api_url.as_str(), "https://") && !starts_with(self.rest_api_url.as_str(), "http://") {
            return Err(BinanceConfigError::InvalidRestApiUrl(owned(self.rest_api_url.as_str())));
        }
        if self.connection_timeout_ms == 0 {
            return Err(BinanceConfigError::InvalidConnectionTimeout);
        }
        if self.reconnect_interval_ms == 0 {
            return Err(BinanceConfigError::InvalidReconnectInterval);
        }
        if self.batch_size == 0 {
            return Err(BinanceConfigError::InvalidBatchSize);
        }
        Ok(())
    }

    /// The connection timeout.
    pub fn connection_timeout_ms(&self) -> (r: u64)
        ensures
            r == self.connection_timeout_ms,
    {
        self.connection_timeout_ms
    }

    /// The reconnect interval.
    pub fn reconnect_interval_ms(&self) -> (r: u64)
        ensures
            r == self.reconnect_interval_ms,
    {
        self.reconnect_interval_ms
    }

    /// The most reconnect attempts.
    pub fn max_reconnect_attempts(&self) -> (r: u32)
        ensures
            r == self.max_reconnect_attempts,
    {
        self.max_reconnect_attempts
    }
}

/// Errors of the Binance connector.
#[derive(Debug)]
pub enum ModernBinanceError {
    Connector(ConnectorError),
    Config(BinanceConfigError),
    WebSocket(String),
    Api(String),
    /// A JSON error, by its text.
    Serialization(String),
    Network(String),
    Authentication(String),
    RateLimit(String),
    NotInitialized,
}

/// The text of a connector error.
pub open spec fn spec_modern_binance_error_text(e: ModernBinanceError) -> Seq<char> {
    match e {
        ModernBinanceError::Connector(c) => "连接器错误: "@ + spec_connector_error_text(c),
        ModernBinanceError::Config(c) => "配置错误: "@ + spec_binance_config_error_text(c),
        ModernBinanceError::WebSocket(m) => "WebSocket错误: "@ + m@,
        ModernBinanceError::Api(m) => "API错误: "@ + m@,
        ModernBinanceError::Serialization(m) => "序列化错误: "@ + m@,
        ModernBinanceError::Network(m) => "网络错误: "@ + m@,
        ModernBinanceError::Authentication(m) => "认证错误: "@ + m@,
        ModernBinanceError::RateLimit(m) => "限流错误: "@ + m@,
        ModernBinanceError::NotInitialized => "未初始化"@,
    }
}

impl ModernBinanceError {
    /// The text of the error.
    pub fn message(&self) -> (r: String)
        ensures
            r@ == spec_modern_binance_error_text(*self),
    {
        match self {
            ModernBinanceError::Connector(c) => owned("连接器错误: ").concat(c.message().as_str()),
            ModernBinanceError::Config(c) => owned("配置错误: ").concat(c.message().as_str()),
            ModernBinanceError::WebSocket(m) => owned("WebSocket错误: ").concat(m.as_str()),
            ModernBinanceError::Api(m) => owned("API错误: ").concat(m.as_str()),
            ModernBinanceError::Serialization(m) => owned("序列化错误: ").concat(m.as_str()),
            ModernBinanceError::Network(m) => owned("网络错误: ").concat(m.as_str()),
            ModernBinanceError::Authentication(m) => owned("认证错误: ").concat(m.as_str()),
            ModernBinanceError::RateLimit(m) => owned("限流错误: ").concat(m.as_str()),
            ModernBinanceError::NotInitialized => owned("未初始化"),
        }
    }
}

impl From<ConnectorError> for ModernBinanceError {
    fn from(e: ConnectorError) -> (r: Self) {
        ModernBinanceError::Connector(e)
    }
}

impl FromSpecImpl<ConnectorError> for ModernBinanceError {
    open spec fn obeys_from_spec() -> bool {
        true
    }

    open spec fn from_spec(e: ConnectorError) -> Self {
        ModernBinanceError::Connector(e)
    }
}

impl From<BinanceConfigError> for ModernBinanceError {
    fn from(e: BinanceConfigError) -> (r: Self) {
        ModernBinanceError::Config(e)
    }
}

impl FromSpecImpl<BinanceConfigError> for ModernBinanceError {
    open spec fn obeys_from_spec() -> bool {
        true
    }

    open spec fn from_spec(e: BinanceConfigError) -> Self {
        ModernBinanceError::Config(e)
    }
}

/// The features of the Binance spot connector, in order.
pub open spec fn spec_binance_features() -> Seq<ConnectorFeature> {
    seq![
        ConnectorFeature::MarketData,
        ConnectorFeature::UserDataStream,
        ConnectorFeature::SpotTrading,
        ConnectorFeature::BatchSubscription,
        ConnectorFeature::AutoReconnect,
        ConnectorFeature::Heartbeat,
        ConnectorFeature::Compression,
        ConnectorFeature::IncrementalUpdates,
    ]
}

/// The reconnect strategy a new connector starts with: backoff from one second to one
/// minute, doubling, at most five attempts.
pub open spec fn spec_default_binance_strategy() -> ReconnectStrategy {
    ReconnectStrategy::ExponentialBackoff {
        initial_interval_ms: 1000,
        max_interval_ms: 60000,
        multiplier_permille: 2000,
        max_attempts: Some(5),
    }
}

/// Where a WebSocket stream's data goes.
#[derive(Debug, Clone, Copy, PartialEq, Eq, Structural)]
pub enum StreamRoute {
    /// Ticker data, to the market-data batch.
    Ticker,
    /// User data.
    UserData,
    /// Anything else, dropped.
    Ignored,
}

/// The route of a stream by its name.
pub open spec fn spec_stream_route(stream: Seq<char>) -> StreamRoute {
    if spec_contains(stream, "@ticker"@) {
        StreamRoute::Ticker
    } else if spec_contains(stream, "@user"@) {
        StreamRoute::UserData
    } else {
        StreamRoute::Ignored
    }
}

/// The route of a stream by its name: ticker streams first, then user streams.
pub fn route_stream(stream: &str) -> (r: StreamRoute)
    ensures
        r == spec_stream_route(stream@),
{
    if contains_str(stream, "@ticker") {
        StreamRoute::Ticker
    } else if contains_str(stream, "@user") {
        StreamRoute::UserData
    } else {
        StreamRoute::Ignored
    }
}

/// The system event for a connection of this connector that opened or closed.
pub fn connection_system_event(connection_id: &str, connected: bool) -> (r: SystemEvent)
    ensures
        connected ==> (r matches SystemEvent::ConnectorConnected { connector_id, exchange, market_type }
            && connector_id@ == connection_id@ && exchange == ExchangeType::Binance && market_type == MarketType::Spot),
        !connected ==> (r matches SystemEvent::ConnectorDisconnected { connector_id, exchange, market_type }
            && connector_id@ == connection_id@ && exchange == ExchangeType::Binance && market_type == MarketType::Spot),
{
    if connected {
        SystemEvent::ConnectorConnected {
            connector_id: owned(connection_id),
            exchange: ExchangeType::Binance,
            market_type: MarketType::Spot,
        }
    } else {
        SystemEvent::ConnectorDisconnected {
            connector_id: owned(connection_id),
            exchange: ExchangeType::Binance,
            market_type: MarketType::Spot,
        }
    }
}

/// The system event for symbols subscribed or unsubscribed at `now`: the symbols joined
/// with commas.
pub fn subscription_system_event(symbols: &Vec<String>, subscribed: bool, now: u64) -> (r: SystemEvent)
    ensures
        r matches SystemEvent::Subscription { exchange, market_type, symbol, subscribed: s, timestamp }
            && exchange == ExchangeType::Binance && market_type == MarketType::Spot
            && symbol@ == spec_join(string_views(symbols@), ","@) && s == subscribed && timestamp == now,
{
    SystemEvent::Subscription {
        exchange: ExchangeType::Binance,
        market_type: MarketType::Spot,
        symbol: join_texts(symbols, ","),
        subscribed,
        timestamp: now,
    }
}

/// The connection event that a new status other than `Failed` records: none for
/// `Connecting`. A failure records `Failed` with its error.
pub open spec fn spec_status_event(s: ModernConnectionStatus) -> Option<ConnectionEvent> {
    match s {
        ModernConnectionStatus::Connected { .. } => Some(ConnectionEvent::Connected),
        ModernConnectionStatus::Disconnected => Some(ConnectionEvent::Disconnected),
        ModernConnectionStatus::Reconnecting { .. } => Some(ConnectionEvent::Reconnecting),
        ModernConnectionStatus::Failed { error, .. } => Some(ConnectionEvent::Failed(error)),
        ModernConnectionStatus::Connecting { .. } => None,
    }
}

/// The name of a status.
pub open spec fn spec_status_name(s: ModernConnectionStatus) -> Seq<char> {
    match s {
        ModernConnectionStatus::Disconnected => "Disconnected"@,
        ModernConnectionStatus::Connecting { .. } => "Connecting"@,
        ModernConnectionStatus::Connected { .. } => "Connected"@,
        ModernConnectionStatus::Reconnecting { .. } => "Reconnecting"@,
        ModernConnectionStatus::Failed { .. } => "Failed"@,
    }
}

/// The name of a status.
pub fn status_name(s: &ModernConnectionStatus) -> (r: &'static str)
    ensures
        r@ == spec_status_name(*s),
{
    match s {
        ModernConnectionStatus::Disconnected => "Disconnected",
        ModernConnectionStatus::Connecting { .. } => "Connecting",
        ModernConnectionStatus::Connected { .. } => "Connected",
        ModernConnectionStatus::Reconnecting { .. } => "Reconnecting",
        ModernConnectionStatus::Failed { .. } => "Failed",
    }
}

/// Microseconds as milliseconds with two decimals, rounded half up.
pub open spec fn spec_ms_text(us: u64) -> Seq<char> {
    let h = (us + 5) / 10;
    spec_decimal((h / 100) as nat) + "."@ + spec_decimal(((h % 100) / 10) as nat) + spec_decimal((h % 10) as nat)
}

/// The health of a connector: healthy when connected; a warning for more than ten
/// errors and for a mean latency above one second; an error when not connected.
pub struct BinanceHealth {
    pub healthy: bool,
    pub checked_at: u64,
    pub latency_us: Option<u64>,
    pub connection_status: String,
    pub warnings: Vec<String>,
    pub errors: Vec<String>,
}

/// The warnings of a health check.
pub open spec fn spec_health_warnings(m: ConnectorMetrics) -> Seq<Seq<char>> {
    (if m.error_count > 10 { seq!["错误计数较高: "@ + spec_decimal(m.error_count as nat)] } else { seq![] })
        + (if m.avg_latency_us > 1_000_000 { seq!["延迟较高: "@ + spec_ms_text(m.avg_latency_us) + "ms"@] } else { seq![] })
}

/// The quality the Binance connector reports in a state, given its counters.
pub open spec fn spec_binance_quality(s: ModernConnectionStatus, m: ConnectorMetrics, now: u64) -> ConnectionQuality {
    if s is Connected {
        ConnectionQuality {
            latency_us: m.avg_latency_us,
            packet_loss_ppm: 0,
            stability_ppm: if m.reconnect_count == 0 { 1_000_000 } else { 800_000 },
            last_updated: now,
        }
    } else {
        ConnectionQuality { latency_us: 1_000_000, packet_loss_ppm: 1_000_000, stability_ppm: 0, last_updated: now }
    }
}

/// The state that the Binance connector keeps and decides on; the channels, sockets and
/// tasks around it are run elsewhere.
#[derive(Debug)]
pub struct ModernBinanceCore {
    pub config: ModernBinanceConfig,
    pub status: ModernConnectionStatus,
    pub metrics: ConnectorMetrics,
    pub reconnect_strategy: ReconnectStrategy,
}

impl ModernBinanceCore {
    /// A connector with default settings, disconnected, with no counts, and the default
    /// reconnect strategy.
    pub fn new() -> (r: Self)
        ensures
            r.status == ModernConnectionStatus::Disconnected,
            r.reconnect_strategy == spec_default_binance_strategy(),
            r.metrics.messages_received == 0 && r.metrics.error_count == 0 && r.metrics.reconnect_count == 0,
            r.config.batch_size == 10,
    {
        ModernBinanceCore {
            config: ModernBinanceConfig::default(),
            status: ModernConnectionStatus::Disconnected,
            metrics: ConnectorMetrics::default(),
            reconnect_strategy: ReconnectStrategy::ExponentialBackoff {
                initial_interval_ms: 1000,
                max_interval_ms: 60000,
                multiplier_permille: 2000,
                max_attempts: Some(5),
            },
        }
    }

    /// The same connector with another reconnect strategy.
    pub fn with_reconnect_strategy(self, strategy: ReconnectStrategy) -> (r: Self)
        ensures
            r.reconnect_strategy == strategy,
            r.status == self.status,
    {
        let mut r = self;
        r.reconnect_strategy = strategy;
        r
    }

    /// The exchange.
    pub fn exchange_type(&self) -> (r: ExchangeType)
        ensures
            r == ExchangeType::Binance,
    {
        ExchangeType::Binance
    }

    /// The market.
    pub fn market_type(&self) -> (r: MarketType)
        ensures
            r == MarketType::Spot,
    {
        MarketType::Spot
    }

    /// The connector's name.
    pub fn name(&self) -> (r: &'static str)
        ensures
            r@ == "modern_binance_spot"@,
    {
        "modern_binance_spot"
    }

    /// The connector's version.
    pub fn version(&self) -> (r: &'static str)
        ensures
            r@ == "2.0.0"@,
    {
        "2.0.0"
    }

    /// What the connector can do.
    pub fn supported_features(&self) -> (r: Vec<ConnectorFeature>)
        ensures
            r@ == spec_binance_features(),
    {
        let r = vec![
            ConnectorFeature::MarketData,
            ConnectorFeature::UserDataStream,
            ConnectorFeature::SpotTrading,
            ConnectorFeature::BatchSubscription,
            ConnectorFeature::AutoReconnect,
            ConnectorFeature::Heartbeat,
            ConnectorFeature::Compression,
            ConnectorFeature::IncrementalUpdates,
        ];
        assert(r@ =~= spec_binance_features());
        r
    }

    /// Sets the status, and returns the connection event it records, if any.
    pub fn update_status(&mut self, new_status: ModernConnectionStatus) -> (r: Option<ConnectionEvent>)
        ensures
            final(self).status == new_status,
            final(self).config == old(self).config,
            final(self).metrics == old(self).metrics,
            final(self).reconnect_strategy == old(self).reconnect_strategy,
            !(new_status is Failed) ==> r == spec_status_event(new_status),
            new_status matches ModernConnectionStatus::Failed { error, .. } ==> (r matches Some(
                ConnectionEvent::Failed(e),
            ) && e@ == error@),
    {
        let event = match &new_status {
            ModernConnectionStatus::Connected { .. } => Some(ConnectionEvent::Connected),
            ModernConnectionStatus::Disconnected => Some(ConnectionEvent::Disconnected),
            ModernConnectionStatus::Reconnecting { .. } => Some(ConnectionEvent::Reconnecting),
            ModernConnectionStatus::Failed { error, .. } => Some(ConnectionEvent::Failed(owned(error.as_str()))),
            ModernConnectionStatus::Connecting { .. } => None,
        };
        self.status = new_status;
        event
    }

    /// Whether the connector is connected.
    pub fn is_healthy(&self) -> (r: bool)
        ensures
            r == (self.status is Connected),
    {
        match &self.status {
            ModernConnectionStatus::Connected { .. } => true,
            _ => false,
        }
    }

    /// The health of the connector at `now`.
    pub fn health_check_at(&self, now: u64) -> (r: BinanceHealth)
        ensures
            r.healthy == (self.status is Connected),
            r.checked_at == now,
            r.latency_us == Some(self.metrics.avg_latency_us),
            r.connection_status@ == spec_status_name(self.status),
            string_views(r.warnings@) == spec_health_warnings(self.metrics),
            string_views(r.errors@) == (if self.status is Connected { seq![] } else { seq!["连接器未连接"@] }),
    {
        let healthy = self.is_healthy();
        let mut warnings: Vec<String> = Vec::new();
        let mut errors: Vec<String> = Vec::new();
        if self.metrics.error_count > 10 {
            warnings.push(owned("错误计数较高: ").concat(decimal_text(self.metrics.error_count as u128).as_str()));
        }
        let ghost w0 = string_views(warnings@);
        let us = self.metrics.avg_latency_us;
        if us > 1_000_000 {
            let h: u64 = us / 10 + if us % 10 >= 5 { 1 } else { 0 };
            assert(h == (us + 5) / 10);
            let t = decimal_text((h / 100) as u128).concat(".").concat(decimal_text(((h % 100) / 10) as u128).as_str()).concat(
                decimal_text((h % 10) as u128).as_str(),
            );
            warnings.push(owned("延迟较高: ").concat(t.as_str()).concat("ms"));
        }
        if !healthy {
            errors.push(owned("连接器未连接"));
        }
        assert(string_views(warnings@) =~= spec_health_warnings(self.metrics));
        assert(string_views(errors@) =~= (if self.status is Connected { seq![] } else { seq!["连接器未连接"@] }));
        BinanceHealth {
            healthy,
            checked_at: now,
            latency_us: Some(us),
            connection_status: owned(status_name(&self.status)),
            warnings,
            errors,
        }
    }

    /// The connection quality at `now`: while connected, the mean latency, nothing lost,
    /// and full stability before any reconnect, four fifths after one; otherwise one
    /// second of latency, everything lost and no stability.
    pub fn connection_quality_at(&self, now: u64) -> (r: ConnectionQuality)
        ensures
            r == spec_binance_quality(self.status, self.metrics, now),
    {
        match &self.status {
            ModernConnectionStatus::Connected { .. } => ConnectionQuality {
                latency_us: self.metrics.avg_latency_us,
                packet_loss_ppm: 0,
                stability_ppm: if self.metrics.reconnect_count == 0 { 1_000_000 } else { 800_000 },
                last_updated: now,
            },
            _ => ConnectionQuality { latency_us: 1_000_000, packet_loss_ppm: 1_000_000, stability_ppm: 0, last_updated: now },
        }
    }

    /// Replaces the settings when they pass their check; returns whether the connector
    /// was connected (and so must reconnect).
    pub fn update_config(&mut self, config: ModernBinanceConfig) -> (r: Result<bool, ModernBinanceError>)
        ensures
            spec_config_check(config) is None ==> (r == Ok::<bool, ModernBinanceError>(old(self).status is Connected)
                && final(self).config == config),
            spec_config_check(config) is Some ==> (r matches Err(ModernBinanceError::Config(_))
                && final(self).config == old(self).config),
            final(self).status == old(self).status,
            final(self).metrics == old(self).metrics,
    {
        match config.validate() {
            Err(e) => Err(ModernBinanceError::Config(e)),
            Ok(()) => {
                let was = self.is_healthy();
                self.config = config;
                Ok(was)
            },
        }
    }
}

/// Settings pass their check exactly when the WebSocket address starts with `wss://` or
/// `ws://`, the REST address with `https://` or `http://`, and the connection timeout,
/// the reconnect interval and the batch size are all positive; a bad WebSocket address is
/// reported before anything else, and a bad REST address before the numbers. A stream
/// whose name holds `@ticker` carries tickers, one that holds `@user` but not `@ticker`
/// carries user data, and any other is dropped.
pub proof fn lemma_binance_config_and_routes(c: ModernBinanceConfig, stream: Seq<char>)
    ensures
        spec_config_check(c) is None <==> {
            &&& spec_starts_with(c.websocket_url@, "wss://"@) || spec_starts_with(c.websocket_url@, "ws://"@)
            &&& spec_starts_with(c.rest_api_url@, "https://"@) || spec_starts_with(c.rest_api_url@, "http://"@)
            &&& c.connection_timeout_ms > 0
            &&& c.reconnect_interval_ms > 0
            &&& c.batch_size > 0
        },
        !spec_starts_with(c.websocket_url@, "wss://"@) && !spec_starts_with(c.websocket_url@, "ws://"@)
            ==> spec_config_check(c) == Some(BinanceConfigError::InvalidWebSocketUrl(c.websocket_url)),
        (spec_starts_with(c.websocket_url@, "wss://"@) || spec_starts_with(c.websocket_url@, "ws://"@))
            && !spec_starts_with(c.rest_api_url@, "https://"@) && !spec_starts_with(c.rest_api_url@, "http://"@)
            ==> spec_config_check(c) == Some(BinanceConfigError::InvalidRestApiUrl(c.rest_api_url)),
        spec_contains(stream, "@ticker"@) ==> spec_stream_route(stream) == StreamRoute::Ticker,
        !spec_contains(stream, "@ticker"@) && spec_contains(stream, "@user"@) ==> spec_stream_route(stream) == StreamRoute::UserData,
        !spec_contains(stream, "@ticker"@) && !spec_contains(stream, "@user"@) ==> spec_stream_route(stream) == StreamRoute::Ignored,
{
}

} // verus!
