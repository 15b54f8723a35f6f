//! The plain data of the modern connector interface: connection states, metrics,
//! features, reconnect strategies, channel and batch settings, and how the outcomes of a
//! batch of subscription requests are summed up. Times are milliseconds since the Unix
//! epoch; durations are milliseconds.
use vstd::prelude::*;
use crate::connectors::traits::subscription_manager::SubscriptionConfig;
use crate::str_map::StrMap;
use crate::text::owned;
use crate::types::config::BatchSubscriptionResult;

verus! {

/// The state of a connection.
#[derive(Debug, Clone, PartialEq, Eq)]
pub enum ModernConnectionStatus {
    Disconnected,
    Connecting { attempt: u32, started_at: u64 },
    Connected { connected_at: u64, last_heartbeat: u64 },
    Reconnecting { attempt: u32, last_error: String, started_at: u64 },
    Failed { error: String, failed_at: u64, retry_after: Option<u64> },
}

/// Counters of a connector. Rates and means are fixed point: latency in microseconds,
/// buffer usage in millionths, batch size in thousandths.
#[derive(Debug, Clone)]
pub struct ConnectorMetrics {
    pub connection_established_at: Option<u64>,
    pub messages_received: u64,
    pub messages_sent: u64,
    pub reconnect_count: u32,
    pub avg_latency_us: u64,
    pub last_heartbeat: Option<u64>,
    pub error_count: u64,
    pub last_error: Option<String>,
    pub subscription_count: u32,
    pub channel_buffer_usage_ppm: u64,
    pub channel_overflow_count: u64,
    pub batch_processing_count: u64,
    pub avg_batch_size_milli: u64,
}

impl Default for ConnectorMetrics {
    fn default() -> (r: Self)
        ensures
            r.connection_established_at is None,
            r.messages_received == 0,
            r.messages_sent == 0,
            r.reconnect_count == 0,
            r.avg_latency_us == 0,
            r.last_heartbeat is None,
            r.error_count == 0,
            r.last_error is None,
            r.subscription_count == 0,
            r.channel_buffer_usage_ppm == 0,
            r.channel_overflow_count == 0,
            r.batch_processing_count == 0,
            r.avg_batch_size_milli == 0,
    {
        ConnectorMetrics {
            connection_established_at: None,
            messages_received: 0,
            messages_sent: 0,
            reconnect_count: 0,
            avg_latency_us: 0,
            last_heartbeat: None,
            error_count: 0,
            last_error: None,
            subscription_count: 0,
            channel_buffer_usage_ppm: 0,
            channel_overflow_count: 0,
            batch_processing_count: 0,
            avg_batch_size_milli: 0,
        }
    }
}

/// What a connector can do.
#[derive(Debug, Clone, Copy, PartialEq, Eq, Hash, Structural)]
pub enum ConnectorFeature {
    MarketData,
    UserDataStream,
    SpotTrading,
    FuturesTrading,
    OptionsTrading,
    MarginTrading,
    BatchSubscription,
    AutoReconnect,
    Heartbeat,
    Compression,
    IncrementalUpdates,
}

/// The outcome of a connector's health check; the check time in milliseconds, the
/// latency in microseconds.
#[derive(Debug)]
pub struct HealthCheckResult {
    pub healthy: bool,
    pub checked_at: u64,
    pub latency_us: Option<u64>,
    pub details: StrMap<String>,
    pub warnings: Vec<String>,
    pub errors: Vec<String>,
}

/// How a connector retries a connection. Durations are milliseconds; the backoff
/// multiplier is in thousandths.
#[derive(Debug, Clone, PartialEq, Eq)]
pub enum ReconnectStrategy {
    FixedInterval { interval_ms: u64, max_attempts: Option<u32> },
    ExponentialBackoff { initial_interval_ms: u64, max_interval_ms: u64, multiplier_permille: u64, max_attempts: Option<u32> },
    Custom { intervals_ms: Vec<u64> },
}

/// A change of a connection.
#[derive(Debug, Clone, PartialEq, Eq)]
pub enum ConnectionEvent {
    Connected,
    Disconnected,
    Reconnecting,
    Failed(String),
}

/// A message passing through a connector; processing time in microseconds.
#[derive(Debug, Clone, Copy, PartialEq, Eq, Structural)]
pub enum MessageEvent {
    Sent { size: usize },
    Received { size: usize },
    Heartbeat,
    BatchProcessed { batch_size: usize, processing_time_us: u64 },
}

/// Settings of batched I/O.
#[derive(Debug, Clone, Copy, PartialEq, Eq, Structural)]
pub struct BatchIOConfig {
    pub batch_size: usize,
    pub batch_timeout_ms: u64,
    pub max_buffer_size: usize,
    pub enable_compression: bool,
}

impl Default for BatchIOConfig {
    fn default() -> (r: Self)
        ensures
            r == (BatchIOConfig { batch_size: 100, batch_timeout_ms: 1000, max_buffer_size: 10000, enable_compression: false }),
    {
        BatchIOConfig { batch_size: 100, batch_timeout_ms: 1000, max_buffer_size: 10000, enable_compression: false }
    }
}

/// The fill of a batch buffer; usage in millionths, the last flush in milliseconds.
#[derive(Debug, Clone, Copy, PartialEq, Eq, Structural)]
pub struct BatchBufferStatus {
    pub current_size: usize,
    pub max_size: usize,
    pub usage_ppm: u64,
    pub pending_items: usize,
    pub last_flush: Option<u64>,
}

/// What to do when a channel is full.
#[derive(Debug, Clone, Copy, PartialEq, Eq, Structural)]
pub enum ChannelOverflowStrategy {
    DropOldest,
    DropNewest,
    Block,
    Error,
}

/// Buffer sizes of the bounded channels.
#[derive(Debug, Clone, Copy, PartialEq, Eq, Structural)]
pub struct BoundedChannelConfig {
    pub market_data_buffer_size: usize,
    pub user_data_buffer_size: usize,
    pub event_buffer_size: usize,
    pub batch_buffer_size: usize,
    pub overflow_strategy: ChannelOverflowStrategy,
}

impl Default for BoundedChannelConfig {
    fn default() -> (r: Self)
        ensures
            r == (BoundedChannelConfig {
                market_data_buffer_size: 1000,
                user_data_buffer_size: 500,
                event_buffer_size: 100,
                batch_buffer_size: 200,
                overflow_strategy: ChannelOverflowStrategy::DropOldest,
            }),
    {
        BoundedChannelConfig {
            market_data_buffer_size: 1000,
            user_data_buffer_size: 500,
            event_buffer_size: 100,
            batch_buffer_size: 200,
            overflow_strategy: ChannelOverflowStrategy::DropOldest,
        }
    }
}

/// The connection timeout of a connector configuration that does not set one.
pub fn default_connection_timeout_ms() -> (r: u64)
    ensures
        r == 30000,
{
    30000
}

/// The reconnect interval of a connector configuration that does not set one.
pub fn default_reconnect_interval_ms() -> (r: u64)
    ensures
        r == 5000,
{
    5000
}

/// The most reconnect attempts of a connector configuration that does not set them.
pub fn default_max_reconnect_attempts() -> (r: u32)
    ensures
        r == 5,
{
    5
}

/// The symbols requested by the first `n` configurations.
pub open spec fn requested_count(configs: Seq<SubscriptionConfig>, n: int) -> int
    decreases n,
{
    if n <= 0 { 0 } else { requested_count(configs, n - 1) + configs[n - 1].symbols@.len() }
}

/// The symbols of the first `n` configurations whose request succeeded (`None` outcome).
pub open spec fn succeeded_count(configs: Seq<SubscriptionConfig>, outcomes: Seq<Option<String>>, n: int) -> int
    decreases n,
{
    if n <= 0 {
        0
    } else {
        succeeded_count(configs, outcomes, n - 1) + if outcomes[n - 1] is None { configs[n - 1].symbols@.len() as int } else { 0 }
    }
}

/// Each symbol paired with a reason.
pub open spec fn pair_with(symbols: Seq<String>, reason: Seq<char>) -> Seq<(Seq<char>, Seq<char>)> {
    symbols.map_values(|s: String| (s@, reason))
}

/// The failed symbols of the first `n` configurations, each with its request's error.
pub open spec fn failed_pairs(configs: Seq<SubscriptionConfig>, outcomes: Seq<Option<String>>, n: int) -> Seq<(Seq<char>, Seq<char>)>
    decreases n,
{
    if n <= 0 {
        seq![]
    } else {
        failed_pairs(configs, outcomes, n - 1) + match outcomes[n - 1] {
            Some(e) => pair_with(configs[n - 1].symbols@, e@),
            None => seq![],
        }
    }
}

/// A list of symbol and reason pairs as text pairs.
pub open spec fn pair_views(s: Seq<(String, String)>) -> Seq<(Seq<char>, Seq<char>)> {
    s.map_values(|p: (String, String)| (p.0@, p.1@))
}

/// Sums up a batch of subscription requests, one outcome per configuration (`None` for
/// success, else the error's text): every symbol counts as requested, the symbols of a
/// successful request as successful, and each symbol of a failed one is listed with
/// the error.
pub fn summarize_config_batch(configs: &Vec<SubscriptionConfig>, outcomes: &Vec<Option<String>>) -> (r: BatchSubscriptionResult)
    requires
        configs@.len() == outcomes@.len(),
        requested_count(configs@, configs@.len() as int) <= usize::MAX,
    ensures
        r.total_requested == requested_count(configs@, configs@.len() as int),
        r.successful == succeeded_count(configs@, outcomes@, configs@.len() as int),
        pair_views(r.failed_symbols@) == failed_pairs(configs@, outcomes@, configs@.len() as int),
        r.failed == r.failed_symbols@.len(),
        r.pending == 0,
        r.results@.len() == 0,
{
    let n = configs.len();
    let mut total: usize = 0;
    let mut ok: usize = 0;
    let mut failed: Vec<(String, String)> = Vec::new();
    let mut i: usize = 0;
    while i < n
        invariant
            n == configs@.len(),
            n == outcomes@.len(),
            i <= n,
            requested_count(configs@, n as int) <= usize::MAX,
            total == requested_count(configs@, i as int),
            ok == succeeded_count(configs@, outcomes@, i as int),
            ok <= total,
            pair_views(failed@) == failed_pairs(configs@, outcomes@, i as int),
        decreases n - i,
    {
        proof {
            lemma_requested_sum_bound(configs@, i as int + 1, n as int);
        }
        let k = configs[i].symbols.len();
        total = total + k;
        match &outcomes[i] {
            None => {
                ok = ok + k;
            },
            Some(e) => {
                let ghost f0 = failed@;
                let mut j: usize = 0;
                while j < k
                    invariant
                        i < n,
                        n == configs@.len(),
                        n == outcomes@.len(),
                        k == configs@[i as int].symbols@.len(),
                        j <= k,
                        outcomes@[i as int] == Some(*e),
                        pair_views(failed@) == pair_views(f0) + pair_with(configs@[i as int].symbols@.take(j as int), e@),
                    decreases k - j,
                {
                    let ghost f1 = failed@;
                    failed.push((owned(configs[i].symbols[j].as_str()), owned(e.as_str())));
                    proof {
                        let syms = configs@[i as int].symbols@;
                        assert(syms.take(j + 1) =~= syms.take(j as int).push(syms[j as int]));
                        assert(pair_with(syms.take(j + 1), e@) =~= pair_with(syms.take(j as int), e@).push((syms[j as int]@, e@)));
                        assert(pair_views(failed@) =~= pair_views(f1).push((syms[j as int]@, e@)));
                    }
                    j = j + 1;
                }
                assert(configs@[i as int].symbols@.take(k as int) =~= configs@[i as int].symbols@);
            },
        }
        assert(pair_views(failed@) =~= failed_pairs(configs@, outcomes@, i + 1));
        i = i + 1;
    }
    let nf = failed.len();
    BatchSubscriptionResult { total_requested: total, successful: ok, failed: nf, pending: 0, failed_symbols: failed, results: Vec::new() }
}

/// The requested count of a prefix is at most that of the whole.
proof fn lemma_requested_sum_bound(configs: Seq<SubscriptionConfig>, a: int, b: int)
    requires
        0 <= a <= b,
        b <= configs.len(),
    ensures
        requested_count(configs, a) <= requested_count(configs, b),
    decreases b - a,
{
    if a < b {
        lemma_requested_sum_bound(configs, a, b - 1);
    }
}

/// Every requested symbol is counted once: as a success or among the failures.
pub proof fn lemma_config_batch_accounts_for_all(configs: Seq<SubscriptionConfig>, outcomes: Seq<Option<String>>, n: int)
    requires
        0 <= n <= configs.len(),
        n <= outcomes.len(),
    ensures
        succeeded_count(configs, outcomes, n) + failed_pairs(configs, outcomes, n).len() == requested_count(configs, n),
    decreases n,
{
    if n > 0 {
        lemma_config_batch_accounts_for_all(configs, outcomes, n - 1);
    }
}

} // verus!
