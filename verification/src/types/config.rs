//! Configuration records and subscription bookkeeping types.
use vstd::prelude::*;
use std::collections::HashMap;
use crate::text::owned;
use crate::types::common::DataType;

verus! {

/// Connection states of a connector.
#[derive(Debug, Clone, Copy, PartialEq, Eq, Structural)]
pub enum ConnectionStatus {
    Disconnected,
    Connecting,
    Connected,
    Reconnecting,
    Error,
}

impl ConnectionStatus {
    /// The upper-case display name, such as `CONNECTED`.
    pub fn display_name(&self) -> (s: &'static str)
        ensures
            s@ == (match *self {
                ConnectionStatus::Disconnected => "DISCONNECTED"@,
                ConnectionStatus::Connecting => "CONNECTING"@,
                ConnectionStatus::Connected => "CONNECTED"@,
                ConnectionStatus::Reconnecting => "RECONNECTING"@,
                ConnectionStatus::Error => "ERROR"@,
            }),
    {
        match self {
            ConnectionStatus::Disconnected => "DISCONNECTED",
            ConnectionStatus::Connecting => "CONNECTING",
            ConnectionStatus::Connected => "CONNECTED",
            ConnectionStatus::Reconnecting => "RECONNECTING",
            ConnectionStatus::Error => "ERROR",
        }
    }
}

/// Settings of one exchange connector. Intervals and timeouts are in milliseconds.
#[derive(Debug, Clone)]
pub struct ConnectorConfig {
    pub api_key: Option<String>,
    pub secret_key: Option<String>,
    pub passphrase: Option<String>,
    pub testnet: bool,
    pub websocket_url: Option<String>,
    pub rest_api_url: Option<String>,
    pub reconnect_interval: u64,
    pub max_reconnect_attempts: u32,
    pub ping_interval: u64,
    pub request_timeout: u64,
}

impl Default for ConnectorConfig {
    fn default() -> (r: Self)
        ensures
            r.api_key is None,
            r.secret_key is None,
            r.passphrase is None,
            !r.testnet,
            r.websocket_url is None,
            r.rest_api_url is None,
            r.reconnect_interval == 5000,
            r.max_reconnect_attempts == 10,
            r.ping_interval == 30000,
            r.request_timeout == 10000,
    {
        ConnectorConfig {
            api_key: None,
            secret_key: None,
            passphrase: None,
            testnet: false,
            websocket_url: None,
            rest_api_url: None,
            reconnect_interval: 5000,
            max_reconnect_attempts: 10,
            ping_interval: 30000,
            request_timeout: 10000,
        }
    }
}

/// Settings of the data-flow manager; the interval is in milliseconds.
#[derive(Debug, Clone, Copy, PartialEq, Eq, Structural)]
pub struct DataFlowConfig {
    pub market_data_buffer_size: usize,
    pub event_channel_capacity: usize,
    pub enable_metrics: bool,
    pub metrics_interval: u64,
}

impl Default for DataFlowConfig {
    fn default() -> (r: Self)
        ensures
            r == (DataFlowConfig {
                market_data_buffer_size: 10000,
                event_channel_capacity: 1000,
                enable_metrics: true,
                metrics_interval: 1000,
            }),
    {
        DataFlowConfig {
            market_data_buffer_size: 10000,
            event_channel_capacity: 1000,
            enable_metrics: true,
            metrics_interval: 1000,
        }
    }
}

/// Settings of the health checker; times are in milliseconds.
#[derive(Debug, Clone, Copy, PartialEq, Eq, Structural)]
pub struct HealthCheckConfig {
    pub check_interval: u64,
    pub timeout: u64,
    pub max_failures: u32,
    pub enable_auto_recovery: bool,
}

impl Default for HealthCheckConfig {
    fn default() -> (r: Self)
        ensures
            r == (HealthCheckConfig {
                check_interval: 30000,
                timeout: 5000,
                max_failures: 3,
                enable_auto_recovery: true,
            }),
    {
        HealthCheckConfig { check_interval: 30000, timeout: 5000, max_failures: 3, enable_auto_recovery: true }
    }
}

/// The whole system's settings.
#[derive(Debug, Clone)]
pub struct SystemConfig {
    pub connectors: HashMap<String, ConnectorConfig>,
    pub data_flow: DataFlowConfig,
    pub health_check: HealthCheckConfig,
    pub log_level: String,
    pub enable_telemetry: bool,
}

impl Default for SystemConfig {
    fn default() -> (r: Self)
        ensures
            r.connectors@.len() == 0,
            r.data_flow == (DataFlowConfig {
                market_data_buffer_size: 10000,
                event_channel_capacity: 1000,
                enable_metrics: true,
                metrics_interval: 1000,
            }),
            r.health_check == (HealthCheckConfig {
                check_interval: 30000,
                timeout: 5000,
                max_failures: 3,
                enable_auto_recovery: true,
            }),
            r.log_level@ == "info"@,
            !r.enable_telemetry,
    {
        SystemConfig {
            connectors: HashMap::new(),
            data_flow: DataFlowConfig::default(),
            health_check: HealthCheckConfig::default(),
            log_level: owned("info"),
            enable_telemetry: false,
        }
    }
}

/// Update cadence requested for a subscription.
#[derive(Debug, Clone, Copy, PartialEq, Eq, Structural)]
pub enum UpdateSpeed {
    Slow,
    Normal,
    Fast,
    Realtime,
}

/// What to subscribe to.
#[derive(Debug, Clone)]
pub struct SubscriptionConfig {
    pub symbols: Vec<String>,
    pub data_types: Vec<DataType>,
    pub depth_levels: Option<u32>,
    pub update_speed: Option<UpdateSpeed>,
}

/// Overall health of a component.
#[derive(Debug, Clone, Copy, PartialEq, Eq, Structural)]
pub enum HealthStatus {
    Healthy,
    Degraded,
    Unhealthy,
}

impl HealthStatus {
    /// The upper-case display name, such as `HEALTHY`.
    pub fn display_name(&self) -> (s: &'static str)
        ensures
            s@ == (match *self {
                HealthStatus::Healthy => "HEALTHY"@,
                HealthStatus::Degraded => "DEGRADED"@,
                HealthStatus::Unhealthy => "UNHEALTHY"@,
            }),
    {
        match self {
            HealthStatus::Healthy => "HEALTHY",
            HealthStatus::Degraded => "DEGRADED",
            HealthStatus::Unhealthy => "UNHEALTHY",
        }
    }
}

/// Grades of connection quality.
#[derive(Debug, Clone, Copy, PartialEq, Eq, Structural)]
pub enum ConnectionQualityLevel {
    Excellent,
    Good,
    Fair,
    Poor,
}

/// State of one subscription.
#[derive(Debug, Clone)]
pub enum SubscriptionStatus {
    Pending,
    Subscribing,
    Active,
    Failed(String),
    Retrying(u32),
}

/// The model of a subscription state: the failure reason as its characters.
pub enum SubscriptionStatusView {
    Pending,
    Subscribing,
    Active,
    Failed(Seq<char>),
    Retrying(u32),
}

impl View for SubscriptionStatus {
    type V = SubscriptionStatusView;

    open spec fn view(&self) -> SubscriptionStatusView {
        match self {
            SubscriptionStatus::Pending => SubscriptionStatusView::Pending,
            SubscriptionStatus::Subscribing => SubscriptionStatusView::Subscribing,
            SubscriptionStatus::Active => SubscriptionStatusView::Active,
            SubscriptionStatus::Failed(m) => SubscriptionStatusView::Failed(m@),
            SubscriptionStatus::Retrying(n) => SubscriptionStatusView::Retrying(*n),
        }
    }
}

/// Outcome of subscribing one symbol to one data type.
#[derive(Debug, Clone)]
pub struct SubscriptionResult {
    pub symbol: String,
    pub data_type: DataType,
    pub status: SubscriptionStatus,
    pub error: Option<String>,
}

/// Outcome of subscribing a batch of symbols.
#[derive(Debug, Clone)]
pub struct BatchSubscriptionResult {
    pub total_requested: usize,
    pub successful: usize,
    pub failed: usize,
    pub pending: usize,
    pub failed_symbols: Vec<(String, String)>,
    pub results: Vec<SubscriptionResult>,
}

impl Default for BatchSubscriptionResult {
    fn default() -> (r: Self)
        ensures
            r.total_requested == 0,
            r.successful == 0,
            r.failed == 0,
            r.pending == 0,
            r.failed_symbols@.len() == 0,
            r.results@.len() == 0,
    {
        BatchSubscriptionResult {
            total_requested: 0,
            successful: 0,
            failed: 0,
            pending: 0,
            failed_symbols: Vec::new(),
            results: Vec::new(),
        }
    }
}

/// Connector settings together with those of the connection optimisations.
#[derive(Debug, Clone)]
pub struct AdvancedConnectorConfig {
    pub base: ConnectorConfig,
    pub emergency_ping_threshold: u32,
    pub connection_quality_check_interval: u64,
    pub adaptive_timeout_enabled: bool,
    pub subscription_batch_size: usize,
    pub subscription_retry_count: u32,
    pub symbol_validation_enabled: bool,
    pub depth_data_validation: bool,
    pub price_precision_auto_detect: bool,
    pub orderbook_sort_validation: bool,
}

impl Default for AdvancedConnectorConfig {
    fn default() -> (r: Self)
        ensures
            r.base.reconnect_interval == 5000,
            r.base.max_reconnect_attempts == 10,
            r.base.ping_interval == 30000,
            r.base.request_timeout == 10000,
            !r.base.testnet,
            r.emergency_ping_threshold == 2,
            r.connection_quality_check_interval == 30000,
            r.adaptive_timeout_enabled,
            r.subscription_batch_size == 10,
            r.subscription_retry_count == 3,
            r.symbol_validation_enabled,
            r.depth_data_validation,
            r.price_precision_auto_detect,
            r.orderbook_sort_validation,
    {
        AdvancedConnectorConfig {
            base: ConnectorConfig::default(),
            emergency_ping_threshold: 2,
            connection_quality_check_interval: 30000,
            adaptive_timeout_enabled: true,
            subscription_batch_size: 10,
            subscription_retry_count: 3,
            symbol_validation_enabled: true,
            depth_data_validation: true,
            price_precision_auto_detect: true,
            orderbook_sort_validation: true,
        }
    }
}

/// Counters of a connection: times in milliseconds since the Unix epoch, latency in
/// microseconds.
#[derive(Debug, Clone, Copy, PartialEq, Eq, Structural)]
pub struct ConnectionStats {
    pub connected_since: Option<u64>,
    pub messages_received: u64,
    pub messages_sent: u64,
    pub reconnect_count: u32,
    pub last_ping_time: Option<u64>,
    pub latency_us: Option<u64>,
}

/// The quality of a connection: latency in microseconds, packet loss and stability in
/// millionths, and when it was measured (milliseconds since the Unix epoch).
#[derive(Debug, Clone, Copy, PartialEq, Eq, Structural)]
pub struct ConnectionQuality {
    pub latency_us: u64,
    pub packet_loss_ppm: u64,
    pub stability_ppm: u64,
    pub last_updated: u64,
}

/// The level of a quality: poor above one second, a tenth lost or below three tenths
/// stable; fair above half a second, a twentieth lost or below seven tenths; good above
/// 200 ms, a hundredth lost or below nine tenths; excellent otherwise.
pub open spec fn spec_quality_level(q: ConnectionQuality) -> ConnectionQualityLevel {
    if q.latency_us > 1_000_000 || q.packet_loss_ppm > 100_000 || q.stability_ppm < 300_000 {
        ConnectionQualityLevel::Poor
    } else if q.latency_us > 500_000 || q.packet_loss_ppm > 50_000 || q.stability_ppm < 700_000 {
        ConnectionQualityLevel::Fair
    } else if q.latency_us > 200_000 || q.packet_loss_ppm > 10_000 || q.stability_ppm < 900_000 {
        ConnectionQualityLevel::Good
    } else {
        ConnectionQualityLevel::Excellent
    }
}

impl ConnectionQuality {
    /// A fresh quality at `now`: no latency, no loss, full stability.
    pub fn default_at(now: u64) -> (r: Self)
        ensures
            r == (ConnectionQuality { latency_us: 0, packet_loss_ppm: 0, stability_ppm: 1_000_000, last_updated: now }),
    {
        ConnectionQuality { latency_us: 0, packet_loss_ppm: 0, stability_ppm: 1_000_000, last_updated: now }
    }

    /// The level of this quality.
    pub fn assess_quality(&self) -> (r: ConnectionQualityLevel)
        ensures
            r == spec_quality_level(*self),
    {
        if self.latency_us > 1_000_000 || self.packet_loss_ppm > 100_000 || self.stability_ppm < 300_000 {
            ConnectionQualityLevel::Poor
        } else if self.latency_us > 500_000 || self.packet_loss_ppm > 50_000 || self.stability_ppm < 700_000 {
            ConnectionQualityLevel::Fair
        } else if self.latency_us > 200_000 || self.packet_loss_ppm > 10_000 || self.stability_ppm < 900_000 {
            ConnectionQualityLevel::Good
        } else {
            ConnectionQualityLevel::Excellent
        }
    }

    /// Whether this quality is poor.
    pub fn is_poor(&self) -> (r: bool)
        ensures
            r == (spec_quality_level(*self) == ConnectionQualityLevel::Poor),
    {
        match self.assess_quality() {
            ConnectionQualityLevel::Poor => true,
            _ => false,
        }
    }
}

/// A worse latency, loss or stability never gives a better level.
pub proof fn lemma_quality_level_monotone(a: ConnectionQuality, b: ConnectionQuality)
    requires
        a.latency_us <= b.latency_us,
        a.packet_loss_ppm <= b.packet_loss_ppm,
        a.stability_ppm >= b.stability_ppm,
    ensures
        spec_quality_level(a) == ConnectionQualityLevel::Poor ==> spec_quality_level(b) == ConnectionQualityLevel::Poor,
        spec_quality_level(b) == ConnectionQualityLevel::Excellent ==> spec_quality_level(a) == ConnectionQualityLevel::Excellent,
{
}

} // verus!
