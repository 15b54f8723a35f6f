//! Error recovery: errors are recorded in a bounded history, repeated sequences of error
//! kinds are detected as patterns, a recovery strategy is chosen for each error, and each
//! strategy is turned into a list of concrete actions. Outcomes of recoveries are counted
//! per strategy.
//!
//! Times are milliseconds since the Unix epoch; fractions (network quality, system load,
//! confidence, success rates) are thousandths. Carrying out the actions (waiting, closing
//! connections) is done by the caller, which hands the outcome back to `complete_recovery`.
use std::collections::VecDeque;
use vstd::prelude::*;
use crate::clock::now_millis;
use crate::str_map::{clone_string_map, StrMap};
use crate::text::{decimal_text, owned, spec_decimal};
use crate::types::common::{ExchangeType, MarketType};
use crate::types::config::ConnectionStatus;
use crate::types::events::{SystemEvent, SystemEventView};

verus! {

/// Settings of the recovery manager.
#[derive(Debug, Clone, Copy, PartialEq, Eq, Structural)]
pub struct SmartErrorRecoveryConfig {
    /// How many error records are kept.
    pub max_error_history: usize,
    /// How many of the latest errors are searched for patterns.
    pub analysis_window_size: usize,
    pub max_retry_attempts: u32,
    pub base_retry_interval_ms: u64,
    pub max_retry_interval_ms: u64,
    /// The factor by which each retry's delay grows, in thousandths (2000 doubles it,
    /// 1500 makes it half as long again).
    pub exponential_backoff_factor: u64,
    pub error_frequency_threshold: u32,
    pub enable_smart_strategy: bool,
    pub enable_predictive_recovery: bool,
    pub recovery_timeout_seconds: u64,
    pub health_check_interval_seconds: u64,
}

/// The default settings.
pub open spec fn spec_default_recovery_config() -> SmartErrorRecoveryConfig {
    SmartErrorRecoveryConfig {
        max_error_history: 1000,
        analysis_window_size: 50,
        max_retry_attempts: 5,
        base_retry_interval_ms: 1000,
        max_retry_interval_ms: 30000,
        exponential_backoff_factor: 2000,
        error_frequency_threshold: 10,
        enable_smart_strategy: true,
        enable_predictive_recovery: true,
        recovery_timeout_seconds: 60,
        health_check_interval_seconds: 30,
    }
}

impl Default for SmartErrorRecoveryConfig {
    fn default() -> (r: Self)
        ensures
            r == spec_default_recovery_config(),
    {
        SmartErrorRecoveryConfig {
            max_error_history: 1000,
            analysis_window_size: 50,
            max_retry_attempts: 5,
            base_retry_interval_ms: 1000,
            max_retry_interval_ms: 30000,
            exponential_backoff_factor: 2000,
            error_frequency_threshold: 10,
            enable_smart_strategy: true,
            enable_predictive_recovery: true,
            recovery_timeout_seconds: 60,
            health_check_interval_seconds: 30,
        }
    }
}

/// Kinds of errors.
#[derive(Debug, Clone, Copy, PartialEq, Eq, Hash, Structural)]
pub enum ErrorType {
    ConnectionError,
    AuthenticationError,
    NetworkTimeout,
    DataParsingError,
    SubscriptionError,
    HeartbeatTimeout,
    ServerError,
    RateLimitError,
    UnknownError,
    ConfigurationError,
    ResourceExhaustion,
    ProtocolError,
}

/// How serious an error is.
#[derive(Debug, Clone, Copy, PartialEq, Eq, Structural)]
pub enum ErrorSeverity {
    Low,
    Medium,
    High,
    Critical,
}

/// Ways to recover from an error.
#[derive(Debug, Clone, Copy, PartialEq, Eq, Hash, Structural)]
pub enum RecoveryStrategy {
    ImmediateRetry,
    DelayedRetry,
    ExponentialBackoffRetry,
    Reconnect,
    Reauthenticate,
    Resubscribe,
    SwitchServer,
    DegradeService,
    PauseService,
    RestartConnector,
    ClearCache,
    WaitAndRecover,
    ResetConfiguration,
}

/// The number of error kinds.
pub const ERROR_TYPE_COUNT: usize = 12;

/// The number of strategies.
pub const STRATEGY_COUNT: usize = 13;

/// The position of an error kind in per-kind tables.
pub open spec fn error_type_index(e: ErrorType) -> int {
    match e {
        ErrorType::ConnectionError => 0,
        ErrorType::AuthenticationError => 1,
        ErrorType::NetworkTimeout => 2,
        ErrorType::DataParsingError => 3,
        ErrorType::SubscriptionError => 4,
        ErrorType::HeartbeatTimeout => 5,
        ErrorType::ServerError => 6,
        ErrorType::RateLimitError => 7,
        ErrorType::UnknownError => 8,
        ErrorType::ConfigurationError => 9,
        ErrorType::ResourceExhaustion => 10,
        ErrorType::ProtocolError => 11,
    }
}

/// The error kind at a position of a per-kind table.
pub open spec fn error_type_at(i: int) -> ErrorType {
    if i == 0 { ErrorType::ConnectionError }
    else if i == 1 { ErrorType::AuthenticationError }
    else if i == 2 { ErrorType::NetworkTimeout }
    else if i == 3 { ErrorType::DataParsingError }
    else if i == 4 { ErrorType::SubscriptionError }
    else if i == 5 { ErrorType::HeartbeatTimeout }
    else if i == 6 { ErrorType::ServerError }
    else if i == 7 { ErrorType::RateLimitError }
    else if i == 8 { ErrorType::UnknownError }
    else if i == 9 { ErrorType::ConfigurationError }
    else if i == 10 { ErrorType::ResourceExhaustion }
    else { ErrorType::ProtocolError }
}

/// The position of a strategy in per-strategy tables.
pub open spec fn strategy_index(s: RecoveryStrategy) -> int {
    match s {
        RecoveryStrategy::ImmediateRetry => 0,
        RecoveryStrategy::DelayedRetry => 1,
        RecoveryStrategy::ExponentialBackoffRetry => 2,
        RecoveryStrategy::Reconnect => 3,
        RecoveryStrategy::Reauthenticate => 4,
        RecoveryStrategy::Resubscribe => 5,
        RecoveryStrategy::SwitchServer => 6,
        RecoveryStrategy::DegradeService => 7,
        RecoveryStrategy::PauseService => 8,
        RecoveryStrategy::RestartConnector => 9,
        RecoveryStrategy::ClearCache => 10,
        RecoveryStrategy::WaitAndRecover => 11,
        RecoveryStrategy::ResetConfiguration => 12,
    }
}

/// The strategy at a position of a per-strategy table.
pub open spec fn strategy_at(i: int) -> RecoveryStrategy {
    if i == 0 { RecoveryStrategy::ImmediateRetry }
    else if i == 1 { RecoveryStrategy::DelayedRetry }
    else if i == 2 { RecoveryStrategy::ExponentialBackoffRetry }
    else if i == 3 { RecoveryStrategy::Reconnect }
    else if i == 4 { RecoveryStrategy::Reauthenticate }
    else if i == 5 { RecoveryStrategy::Resubscribe }
    else if i == 6 { RecoveryStrategy::SwitchServer }
    else if i == 7 { RecoveryStrategy::DegradeService }
    else if i == 8 { RecoveryStrategy::PauseService }
    else if i == 9 { RecoveryStrategy::RestartConnector }
    else if i == 10 { RecoveryStrategy::ClearCache }
    else if i == 11 { RecoveryStrategy::WaitAndRecover }
    else { RecoveryStrategy::ResetConfiguration }
}

/// The table position of an error kind.
pub fn error_type_slot(e: ErrorType) -> (r: usize)
    ensures
        r == error_type_index(e),
        r < ERROR_TYPE_COUNT,
        error_type_at(r as int) == e,
{
    match e {
        ErrorType::ConnectionError => 0,
        ErrorType::AuthenticationError => 1,
        ErrorType::NetworkTimeout => 2,
        ErrorType::DataParsingError => 3,
        ErrorType::SubscriptionError => 4,
        ErrorType::HeartbeatTimeout => 5,
        ErrorType::ServerError => 6,
        ErrorType::RateLimitError => 7,
        ErrorType::UnknownError => 8,
        ErrorType::ConfigurationError => 9,
        ErrorType::ResourceExhaustion => 10,
        ErrorType::ProtocolError => 11,
    }
}

/// The error kind of a table position.
pub fn error_type_of_slot(i: usize) -> (e: ErrorType)
    requires
        i < ERROR_TYPE_COUNT,
    ensures
        e == error_type_at(i as int),
        error_type_index(e) == i,
{
    if i == 0 { ErrorType::ConnectionError }
    else if i == 1 { ErrorType::AuthenticationError }
    else if i == 2 { ErrorType::NetworkTimeout }
    else if i == 3 { ErrorType::DataParsingError }
    else if i == 4 { ErrorType::SubscriptionError }
    else if i == 5 { ErrorType::HeartbeatTimeout }
    else if i == 6 { ErrorType::ServerError }
    else if i == 7 { ErrorType::RateLimitError }
    else if i == 8 { ErrorType::UnknownError }
    else if i == 9 { ErrorType::ConfigurationError }
    else if i == 10 { ErrorType::ResourceExhaustion }
    else { ErrorType::ProtocolError }
}

/// The table position of a strategy.
pub fn strategy_slot(s: RecoveryStrategy) -> (r: usize)
    ensures
        r == strategy_index(s),
        r < STRATEGY_COUNT,
        strategy_at(r as int) == s,
{
    match s {
        RecoveryStrategy::ImmediateRetry => 0,
        RecoveryStrategy::DelayedRetry => 1,
        RecoveryStrategy::ExponentialBackoffRetry => 2,
        RecoveryStrategy::Reconnect => 3,
        RecoveryStrategy::Reauthenticate => 4,
        RecoveryStrategy::Resubscribe => 5,
        RecoveryStrategy::SwitchServer => 6,
        RecoveryStrategy::DegradeService => 7,
        RecoveryStrategy::PauseService => 8,
        RecoveryStrategy::RestartConnector => 9,
        RecoveryStrategy::ClearCache => 10,
        RecoveryStrategy::WaitAndRecover => 11,
        RecoveryStrategy::ResetConfiguration => 12,
    }
}

/// The strategy of a table position.
pub fn strategy_of_slot(i: usize) -> (s: RecoveryStrategy)
    requires
        i < STRATEGY_COUNT,
    ensures
        s == strategy_at(i as int),
        strategy_index(s) == i,
{
    if i == 0 { RecoveryStrategy::ImmediateRetry }
    else if i == 1 { RecoveryStrategy::DelayedRetry }
    else if i == 2 { RecoveryStrategy::ExponentialBackoffRetry }
    else if i == 3 { RecoveryStrategy::Reconnect }
    else if i == 4 { RecoveryStrategy::Reauthenticate }
    else if i == 5 { RecoveryStrategy::Resubscribe }
    else if i == 6 { RecoveryStrategy::SwitchServer }
    else if i == 7 { RecoveryStrategy::DegradeService }
    else if i == 8 { RecoveryStrategy::PauseService }
    else if i == 9 { RecoveryStrategy::RestartConnector }
    else if i == 10 { RecoveryStrategy::ClearCache }
    else if i == 11 { RecoveryStrategy::WaitAndRecover }
    else { RecoveryStrategy::ResetConfiguration }
}

/// Where an error happened. Network quality and system load are thousandths.
#[derive(Debug)]
pub struct ErrorContext {
    pub exchange: String,
    pub symbol: Option<String>,
    pub connection_status: ConnectionStatus,
    pub network_quality: Option<u32>,
    pub system_load: Option<u32>,
    pub additional_info: StrMap<String>,
}

/// One step of a recovery. Waits are in milliseconds, wide enough for any whole number
/// of seconds the settings give.
#[derive(Debug, Clone)]
pub enum RecoveryAction {
    CloseConnection,
    EstablishConnection,
    SendAuthentication,
    SendSubscription(String),
    SendHeartbeat,
    ClearState,
    Wait(u128),
    SwitchEndpoint(String),
    ResetConfiguration,
    EmitSystemEvent(SystemEvent),
}

/// A recovery step with its texts as character sequences.
pub enum RecoveryActionView {
    CloseConnection,
    EstablishConnection,
    SendAuthentication,
    SendSubscription(Seq<char>),
    SendHeartbeat,
    ClearState,
    Wait(u128),
    SwitchEndpoint(Seq<char>),
    ResetConfiguration,
    EmitSystemEvent(SystemEventView),
}

impl View for RecoveryAction {
    type V = RecoveryActionView;

    open spec fn view(&self) -> RecoveryActionView {
        match self {
            RecoveryAction::CloseConnection => RecoveryActionView::CloseConnection,
            RecoveryAction::EstablishConnection => RecoveryActionView::EstablishConnection,
            RecoveryAction::SendAuthentication => RecoveryActionView::SendAuthentication,
            RecoveryAction::SendSubscription(s) => RecoveryActionView::SendSubscription(s@),
            RecoveryAction::SendHeartbeat => RecoveryActionView::SendHeartbeat,
            RecoveryAction::ClearState => RecoveryActionView::ClearState,
            RecoveryAction::Wait(ms) => RecoveryActionView::Wait(*ms),
            RecoveryAction::SwitchEndpoint(e) => RecoveryActionView::SwitchEndpoint(e@),
            RecoveryAction::ResetConfiguration => RecoveryActionView::ResetConfiguration,
            RecoveryAction::EmitSystemEvent(ev) => RecoveryActionView::EmitSystemEvent(ev@),
        }
    }
}

/// The views of a list of actions.
pub open spec fn actions_view(v: Seq<RecoveryAction>) -> Seq<RecoveryActionView> {
    v.map_values(|a: RecoveryAction| a@)
}

/// One attempt to recover from an error.
#[derive(Debug, Clone)]
pub struct RecoveryAttempt {
    pub attempt_number: u32,
    pub strategy: RecoveryStrategy,
    pub start_time: u64,
    pub end_time: Option<u64>,
    pub success: Option<bool>,
    pub actions: Vec<RecoveryAction>,
    pub result_message: Option<String>,
}

/// An error as recorded, with the attempts made to recover from it.
#[derive(Debug)]
pub struct ErrorRecord {
    pub error_type: ErrorType,
    pub error_message: String,
    pub timestamp: u64,
    pub severity: ErrorSeverity,
    pub context: ErrorContext,
    pub recovery_attempts: Vec<RecoveryAttempt>,
}

/// A sequence of error kinds seen twice in a row. Confidence is in thousandths.
#[derive(Debug, Clone)]
pub struct ErrorPattern {
    pub name: String,
    pub error_sequence: Vec<ErrorType>,
    pub time_window_seconds: u64,
    pub occurrence_count: u32,
    pub recommended_strategy: RecoveryStrategy,
    pub confidence: u32,
}

/// What a recovery came to.
#[derive(Debug, Clone)]
pub struct RecoveryResult {
    pub success: bool,
    pub strategy: RecoveryStrategy,
    pub actions: Vec<RecoveryAction>,
    pub recovery_time_ms: u64,
    pub retry_count: u32,
    pub message: String,
}

/// The strategy used for an error kind when nothing else is known.
pub open spec fn spec_default_strategy(e: ErrorType) -> RecoveryStrategy {
    match e {
        ErrorType::ConnectionError => RecoveryStrategy::Reconnect,
        ErrorType::AuthenticationError => RecoveryStrategy::Reauthenticate,
        ErrorType::NetworkTimeout => RecoveryStrategy::DelayedRetry,
        ErrorType::DataParsingError => RecoveryStrategy::ImmediateRetry,
        ErrorType::SubscriptionError => RecoveryStrategy::Resubscribe,
        ErrorType::HeartbeatTimeout => RecoveryStrategy::Reconnect,
        ErrorType::ServerError => RecoveryStrategy::DelayedRetry,
        ErrorType::RateLimitError => RecoveryStrategy::ExponentialBackoffRetry,
        ErrorType::ConfigurationError => RecoveryStrategy::ResetConfiguration,
        ErrorType::ResourceExhaustion => RecoveryStrategy::ClearCache,
        ErrorType::ProtocolError => RecoveryStrategy::Reconnect,
        ErrorType::UnknownError => RecoveryStrategy::DelayedRetry,
    }
}

/// The strategy chosen from the error kind and its context: the state of the connection
/// and, for timeouts, whether the network quality is below one half.
pub open spec fn spec_context_strategy(e: ErrorType, status: ConnectionStatus, quality: Option<u32>) -> RecoveryStrategy {
    match e {
        ErrorType::ConnectionError => match status {
            ConnectionStatus::Disconnected => RecoveryStrategy::Reconnect,
            ConnectionStatus::Connecting => RecoveryStrategy::DelayedRetry,
            _ => RecoveryStrategy::ImmediateRetry,
        },
        ErrorType::NetworkTimeout => match quality {
            Some(q) => if q < 500 { RecoveryStrategy::ExponentialBackoffRetry } else { RecoveryStrategy::DelayedRetry },
            None => RecoveryStrategy::DelayedRetry,
        },
        ErrorType::AuthenticationError => RecoveryStrategy::Reauthenticate,
        ErrorType::SubscriptionError => RecoveryStrategy::Resubscribe,
        ErrorType::HeartbeatTimeout => RecoveryStrategy::Reconnect,
        ErrorType::RateLimitError => RecoveryStrategy::ExponentialBackoffRetry,
        ErrorType::ServerError => RecoveryStrategy::SwitchServer,
        ErrorType::ResourceExhaustion => RecoveryStrategy::ClearCache,
        _ => spec_default_strategy(e),
    }
}

/// One growth step of the retry delay: `d` times the factor in thousandths, rounded
/// down and held to `u64::MAX`.
pub open spec fn spec_backoff_step(d: u64, factor: u64) -> u64 {
    let x = (d * factor) / 1000;
    if x > u64::MAX { u64::MAX } else { x as u64 }
}

/// The delay after `k` growth steps from `base`.
pub open spec fn spec_backoff_chain(base: u64, factor: u64, k: nat) -> u64
    decreases k,
{
    if k == 0 { base } else { spec_backoff_step(spec_backoff_chain(base, factor, (k - 1) as nat), factor) }
}

/// The delay of a retry before it is capped: from the base interval, one growth step per
/// attempt after the first. Attempt 0 divides the base by the factor once.
pub open spec fn spec_backoff_raw(base: u64, factor: u64, attempt: u32) -> int {
    if attempt == 0 {
        if factor == 0 {
            if base == 0 { 0 } else { u64::MAX as int }
        } else {
            held((base * 1000) / (factor as int))
        }
    } else {
        spec_backoff_chain(base, factor, (attempt - 1) as nat) as int
    }
}

/// The delay before retry number `attempt`, in milliseconds: the raw delay, held to
/// `u64::MAX`, then capped at the largest retry interval.
pub open spec fn spec_backoff_ms(c: SmartErrorRecoveryConfig, attempt: u32) -> u64 {
    let raw = spec_backoff_raw(c.base_retry_interval_ms, c.exponential_backoff_factor, attempt);
    let held: u64 = if raw > u64::MAX { u64::MAX } else { raw as u64 };
    if held < c.max_retry_interval_ms { held } else { c.max_retry_interval_ms }
}

/// The actions of a strategy. `symbol` is the symbol of the error's context,
/// `backoff_ms` the first retry's delay and `now` the time of the events emitted.
pub open spec fn spec_recovery_actions(
    strategy: RecoveryStrategy,
    symbol: Option<Seq<char>>,
    c: SmartErrorRecoveryConfig,
    now: u64,
) -> Seq<RecoveryActionView> {
    match strategy {
        RecoveryStrategy::ImmediateRetry => seq![RecoveryActionView::Wait(100u128)],
        RecoveryStrategy::DelayedRetry => seq![RecoveryActionView::Wait(c.base_retry_interval_ms as u128)],
        RecoveryStrategy::ExponentialBackoffRetry => seq![RecoveryActionView::Wait(spec_backoff_ms(c, 1) as u128)],
        RecoveryStrategy::Reconnect => seq![
            RecoveryActionView::CloseConnection,
            RecoveryActionView::Wait(1000u128),
            RecoveryActionView::EstablishConnection,
        ],
        RecoveryStrategy::Reauthenticate => seq![RecoveryActionView::SendAuthentication],
        RecoveryStrategy::Resubscribe => match symbol {
            Some(s) => seq![RecoveryActionView::SendSubscription(s)],
            None => seq![RecoveryActionView::ClearState],
        },
        RecoveryStrategy::SwitchServer => seq![
            RecoveryActionView::CloseConnection,
            RecoveryActionView::SwitchEndpoint("backup_endpoint"@),
            RecoveryActionView::EstablishConnection,
        ],
        RecoveryStrategy::DegradeService => seq![
            RecoveryActionView::EmitSystemEvent(SystemEventView::ServiceDegraded {
                exchange: ExchangeType::Binance,
                market_type: MarketType::Spot,
                reason: "服务降级"@,
                timestamp: now,
            }),
            RecoveryActionView::ClearState,
        ],
        RecoveryStrategy::PauseService => seq![
            RecoveryActionView::EmitSystemEvent(SystemEventView::ServicePaused {
                exchange: ExchangeType::Binance,
                market_type: MarketType::Spot,
                reason: "服务暂停"@,
                timestamp: now,
            }),
            RecoveryActionView::Wait(30000u128),
        ],
        RecoveryStrategy::RestartConnector => seq![
            RecoveryActionView::CloseConnection,
            RecoveryActionView::ClearState,
            RecoveryActionView::ResetConfiguration,
            RecoveryActionView::EstablishConnection,
        ],
        RecoveryStrategy::ClearCache => seq![RecoveryActionView::ClearState],
        RecoveryStrategy::WaitAndRecover => seq![
            RecoveryActionView::Wait((c.health_check_interval_seconds * 1000) as u128),
            RecoveryActionView::EstablishConnection,
        ],
        RecoveryStrategy::ResetConfiguration => seq![
            RecoveryActionView::ResetConfiguration,
            RecoveryActionView::ClearState,
        ],
    }
}

/// The strategy recommended for a repeated sequence of errors, by the first of connection
/// errors, timeouts and authentication errors that it holds.
pub open spec fn spec_pattern_strategy(p: Seq<ErrorType>) -> RecoveryStrategy {
    if p.contains(ErrorType::ConnectionError) {
        RecoveryStrategy::Reconnect
    } else if p.contains(ErrorType::NetworkTimeout) {
        RecoveryStrategy::ExponentialBackoffRetry
    } else if p.contains(ErrorType::AuthenticationError) {
        RecoveryStrategy::Reauthenticate
    } else {
        RecoveryStrategy::DelayedRetry
    }
}

/// The message of a finished recovery.
pub open spec fn spec_recovery_message(success: bool, ms: u64) -> Seq<char> {
    (if success { "恢复成功，耗时 "@ } else { "恢复失败，耗时 "@ }) + spec_decimal(ms as nat) + "ms"@
}

/// Whether `p` occurs in `s`.
pub fn contains_error_type(s: &Vec<ErrorType>, p: ErrorType) -> (r: bool)
    ensures
        r == s@.contains(p),
{
    let n = s.len();
    let mut i: usize = 0;
    while i < n
        invariant
            n == s@.len(),
            i <= n,
            forall|j: int| 0 <= j < i ==> s@[j] != p,
        decreases n - i,
    {
        if s[i] == p {
            assert(s@[i as int] == p);
            return true;
        }
        i = i + 1;
    }
    false
}

/// Copies a list of actions.
pub fn clone_actions(v: &Vec<RecoveryAction>) -> (r: Vec<RecoveryAction>)
    ensures
        actions_view(r@) == actions_view(v@),
{
    let n = v.len();
    let mut out: Vec<RecoveryAction> = Vec::new();
    let mut i: usize = 0;
    while i < n
        invariant
            n == v@.len(),
            i <= n,
            out@.len() == i,
            forall|j: int| 0 <= j < i ==> (#[trigger] out@[j])@ == v@[j]@,
        decreases n - i,
    {
        out.push(clone_action(&v[i]));
        i = i + 1;
    }
    assert(actions_view(out@) =~= actions_view(v@));
    out
}

/// Copies one action.
pub fn clone_action(a: &RecoveryAction) -> (r: RecoveryAction)
    ensures
        r@ == a@,
{
    match a {
        RecoveryAction::CloseConnection => RecoveryAction::CloseConnection,
        RecoveryAction::EstablishConnection => RecoveryAction::EstablishConnection,
        RecoveryAction::SendAuthentication => RecoveryAction::SendAuthentication,
        RecoveryAction::SendSubscription(s) => RecoveryAction::SendSubscription(s.clone()),
        RecoveryAction::SendHeartbeat => RecoveryAction::SendHeartbeat,
        RecoveryAction::ClearState => RecoveryAction::ClearState,
        RecoveryAction::Wait(ms) => RecoveryAction::Wait(*ms),
        RecoveryAction::SwitchEndpoint(e) => RecoveryAction::SwitchEndpoint(e.clone()),
        RecoveryAction::ResetConfiguration => RecoveryAction::ResetConfiguration,
        RecoveryAction::EmitSystemEvent(ev) => RecoveryAction::EmitSystemEvent(clone_event(ev)),
    }
}

/// Copies a system event.
pub fn clone_event(ev: &SystemEvent) -> (r: SystemEvent)
    ensures
        r@ == ev@,
{
    match ev {
        SystemEvent::Connection { exchange, market_type, connected, timestamp } => SystemEvent::Connection {
            exchange: *exchange,
            market_type: *market_type,
            connected: *connected,
            timestamp: *timestamp,
        },
        SystemEvent::Subscription { exchange, market_type, symbol, subscribed, timestamp } =>
            SystemEvent::Subscription {
                exchange: *exchange,
                market_type: *market_type,
                symbol: symbol.clone(),
                subscribed: *subscribed,
                timestamp: *timestamp,
            },
        SystemEvent::Error { exchange, market_type, error, timestamp } => SystemEvent::Error {
            exchange: *exchange,
            market_type: *market_type,
            error: error.clone(),
            timestamp: *timestamp,
        },
        SystemEvent::DataQuality { exchange, market_type, symbol, latency_ms, timestamp } =>
            SystemEvent::DataQuality {
                exchange: *exchange,
                market_type: *market_type,
                symbol: symbol.clone(),
                latency_ms: *latency_ms,
                timestamp: *timestamp,
            },
        SystemEvent::ArbitrageOpportunity { symbol, buy_exchange, sell_exchange, profit_bps, timestamp } =>
            SystemEvent::ArbitrageOpportunity {
                symbol: symbol.clone(),
                buy_exchange: *buy_exchange,
                sell_exchange: *sell_exchange,
                profit_bps: *profit_bps,
                timestamp: *timestamp,
            },
        SystemEvent::ServicePaused { exchange, market_type, reason, timestamp } => SystemEvent::ServicePaused {
            exchange: *exchange,
            market_type: *market_type,
            reason: reason.clone(),
            timestamp: *timestamp,
        },
        SystemEvent::ServiceDegraded { exchange, market_type, reason, timestamp } =>
            SystemEvent::ServiceDegraded {
                exchange: *exchange,
                market_type: *market_type,
                reason: reason.clone(),
                timestamp: *timestamp,
            },
        SystemEvent::ConnectorInitialized { connector_id, exchange, market_type } =>
            SystemEvent::ConnectorInitialized {
                connector_id: connector_id.clone(),
                exchange: *exchange,
                market_type: *market_type,
            },
        SystemEvent::ConnectorConnected { connector_id, exchange, market_type } =>
            SystemEvent::ConnectorConnected {
                connector_id: connector_id.clone(),
                exchange: *exchange,
                market_type: *market_type,
            },
        SystemEvent::ConnectorDisconnected { connector_id, exchange, market_type } =>
            SystemEvent::ConnectorDisconnected {
                connector_id: connector_id.clone(),
                exchange: *exchange,
                market_type: *market_type,
            },
    }
}

/// The strategy recommended for a repeated sequence of errors.
pub fn recommend_strategy_for_pattern(pattern: &Vec<ErrorType>) -> (r: RecoveryStrategy)
    ensures
        r == spec_pattern_strategy(pattern@),
{
    if contains_error_type(pattern, ErrorType::ConnectionError) {
        RecoveryStrategy::Reconnect
    } else if contains_error_type(pattern, ErrorType::NetworkTimeout) {
        RecoveryStrategy::ExponentialBackoffRetry
    } else if contains_error_type(pattern, ErrorType::AuthenticationError) {
        RecoveryStrategy::Reauthenticate
    } else {
        RecoveryStrategy::DelayedRetry
    }
}

/// The strategy used for an error kind when nothing else is known.
pub fn select_default_strategy(error_type: ErrorType) -> (r: RecoveryStrategy)
    ensures
        r == spec_default_strategy(error_type),
{
    match error_type {
        ErrorType::ConnectionError => RecoveryStrategy::Reconnect,
        ErrorType::AuthenticationError => RecoveryStrategy::Reauthenticate,
        ErrorType::NetworkTimeout => RecoveryStrategy::DelayedRetry,
        ErrorType::DataParsingError => RecoveryStrategy::ImmediateRetry,
        ErrorType::SubscriptionError => RecoveryStrategy::Resubscribe,
        ErrorType::HeartbeatTimeout => RecoveryStrategy::Reconnect,
        ErrorType::ServerError => RecoveryStrategy::DelayedRetry,
        ErrorType::RateLimitError => RecoveryStrategy::ExponentialBackoffRetry,
        ErrorType::ConfigurationError => RecoveryStrategy::ResetConfiguration,
        ErrorType::ResourceExhaustion => RecoveryStrategy::ClearCache,
        ErrorType::ProtocolError => RecoveryStrategy::Reconnect,
        ErrorType::UnknownError => RecoveryStrategy::DelayedRetry,
    }
}

/// The strategy chosen from the error kind and its context.
pub fn select_context_based_strategy(error_type: ErrorType, context: &ErrorContext) -> (r: RecoveryStrategy)
    ensures
        r == spec_context_strategy(error_type, context.connection_status, context.network_quality),
{
    match error_type {
        ErrorType::ConnectionError => match context.connection_status {
            ConnectionStatus::Disconnected => RecoveryStrategy::Reconnect,
            ConnectionStatus::Connecting => RecoveryStrategy::DelayedRetry,
            _ => RecoveryStrategy::ImmediateRetry,
        },
        ErrorType::NetworkTimeout => match context.network_quality {
            Some(q) => if q < 500 {
                RecoveryStrategy::ExponentialBackoffRetry
            } else {
                RecoveryStrategy::DelayedRetry
            },
            None => RecoveryStrategy::DelayedRetry,
        },
        ErrorType::AuthenticationError => RecoveryStrategy::Reauthenticate,
        ErrorType::SubscriptionError => RecoveryStrategy::Resubscribe,
        ErrorType::HeartbeatTimeout => RecoveryStrategy::Reconnect,
        ErrorType::RateLimitError => RecoveryStrategy::ExponentialBackoffRetry,
        ErrorType::ServerError => RecoveryStrategy::SwitchServer,
        ErrorType::ResourceExhaustion => RecoveryStrategy::ClearCache,
        _ => select_default_strategy(error_type),
    }
}

/// One growth step of the retry delay.
pub fn backoff_step(d: u64, factor: u64) -> (r: u64)
    ensures
        r == spec_backoff_step(d, factor),
{
    assert((d as int) * (factor as int) <= (u64::MAX as int) * (u64::MAX as int)) by (nonlinear_arith);
    let x: u128 = (d as u128) * (factor as u128) / 1000;
    if x > u64::MAX as u128 { u64::MAX } else { x as u64 }
}

/// The delay before retry number `attempt` under the settings `c`, in milliseconds.
pub fn backoff_delay_ms(c: &SmartErrorRecoveryConfig, attempt: u32) -> (r: u64)
    ensures
        r == spec_backoff_ms(*c, attempt),
{
    let base = c.base_retry_interval_ms;
    let factor = c.exponential_backoff_factor;
    let raw: u64 = if attempt == 0 {
        if factor == 0 {
            if base == 0 { 0 } else { u64::MAX }
        } else {
            let q: u128 = (base as u128) * 1000 / (factor as u128);
            if q > u64::MAX as u128 { u64::MAX } else { q as u64 }
        }
    } else {
        let mut acc: u64 = base;
        let mut i: u32 = 1;
        while i < attempt
            invariant
                1 <= i <= attempt,
                acc == spec_backoff_chain(base, factor, (i - 1) as nat),
            decreases attempt - i,
        {
            acc = backoff_step(acc, factor);
            i = i + 1;
        }
        acc
    };
    if raw < c.max_retry_interval_ms {
        raw
    } else {
        c.max_retry_interval_ms
    }
}

/// `x` held to at most `u64::MAX`.
pub open spec fn held(x: int) -> int {
    if x > u64::MAX { u64::MAX as int } else { x }
}

/// The error kinds of the latest `w` records, latest first.
pub open spec fn spec_recent(types: Seq<ErrorType>, w: nat) -> Seq<ErrorType> {
    let n = if w < types.len() { w } else { types.len() };
    Seq::new(n, |i: int| types[types.len() - 1 - i])
}

/// The error kinds of a list of records.
pub open spec fn record_types(records: Seq<ErrorRecord>) -> Seq<ErrorType> {
    records.map_values(|r: ErrorRecord| r.error_type)
}

/// Whether the `w` kinds from `j` are repeated right after them.
pub open spec fn spec_repeat_at(r: Seq<ErrorType>, w: int, j: int) -> bool {
    r.subrange(j, j + w) == r.subrange(j + w, j + 2 * w)
}

/// How many start positions a window of `w` kinds and its repetition have in `r`.
pub open spec fn spec_positions(r: Seq<ErrorType>, w: int) -> int {
    if r.len() >= 2 * w { r.len() - 2 * w + 1 } else { 0 }
}

/// The repeated windows of `w` kinds that start before `i`, in order.
pub open spec fn spec_cands_w(r: Seq<ErrorType>, w: int, i: int) -> Seq<Seq<ErrorType>>
    decreases i,
{
    if i <= 0 {
        Seq::empty()
    } else {
        let prev = spec_cands_w(r, w, i - 1);
        if spec_repeat_at(r, w, i - 1) { prev.push(r.subrange(i - 1, i - 1 + w)) } else { prev }
    }
}

/// The repeated windows of two up to `w` kinds, shorter windows first.
pub open spec fn spec_cands_upto(r: Seq<ErrorType>, w: int) -> Seq<Seq<ErrorType>>
    decreases w,
{
    if w < 2 {
        Seq::empty()
    } else {
        spec_cands_upto(r, w - 1) + spec_cands_w(r, w, spec_positions(r, w))
    }
}

/// `acc` with each of `c` appended in turn unless it is already there.
pub open spec fn spec_add_new(acc: Seq<Seq<ErrorType>>, c: Seq<Seq<ErrorType>>) -> Seq<Seq<ErrorType>>
    decreases c.len(),
{
    if c.len() == 0 {
        acc
    } else {
        let a = spec_add_new(acc, c.drop_last());
        if a.contains(c.last()) { a } else { a.push(c.last()) }
    }
}

/// At most the first twenty.
pub open spec fn spec_first_twenty(s: Seq<Seq<ErrorType>>) -> Seq<Seq<ErrorType>> {
    if s.len() > 20 { s.take(20) } else { s }
}

/// The sequences of a list of patterns.
pub open spec fn pattern_seqs(ps: Seq<ErrorPattern>) -> Seq<Seq<ErrorType>> {
    ps.map_values(|p: ErrorPattern| p.error_sequence@)
}

/// A pattern as the detection makes it: its name, strategy and constants follow from its
/// sequence of two to five kinds.
pub open spec fn pattern_wf(p: ErrorPattern) -> bool {
    &&& 2 <= p.error_sequence@.len() <= 5
    &&& p.name@ == "重复模式_"@ + spec_decimal(p.error_sequence@.len())
    &&& p.time_window_seconds == 300
    &&& p.occurrence_count == 1
    &&& p.recommended_strategy == spec_pattern_strategy(p.error_sequence@)
    &&& p.confidence == 800
}

/// The strategy of the first pattern that holds `e` with a confidence above eight tenths.
pub open spec fn spec_pattern_choice(ps: Seq<ErrorPattern>, e: ErrorType) -> Option<RecoveryStrategy>
    decreases ps.len(),
{
    if ps.len() == 0 {
        None
    } else if ps[0].error_sequence@.contains(e) && ps[0].confidence > 800 {
        Some(ps[0].recommended_strategy)
    } else {
        spec_pattern_choice(ps.drop_first(), e)
    }
}

/// The strategy that the first entry for `e` in a cache table names.
pub open spec fn spec_cached(table: Seq<(ErrorType, RecoveryStrategy)>, e: ErrorType) -> Option<RecoveryStrategy>
    decreases table.len(),
{
    if table.len() == 0 {
        None
    } else if table[0].0 == e {
        Some(table[0].1)
    } else {
        spec_cached(table.drop_first(), e)
    }
}

/// Whether more than seven in ten uses of `s` succeeded.
pub open spec fn spec_rate_above_seven_tenths(usage: Seq<u32>, success: Seq<u32>, s: RecoveryStrategy) -> bool {
    let i = strategy_index(s);
    usage[i] > 0 && 10 * success[i] > 7 * usage[i]
}

/// The error history.
#[derive(Debug)]
pub struct ErrorHistory {
    pub records: VecDeque<ErrorRecord>,
    /// How many errors of each kind were recorded, by `error_type_index`.
    pub error_type_counts: Vec<u32>,
    pub patterns: Vec<ErrorPattern>,
}

/// What the strategy choice remembers: strategies named per error kind, and the use and
/// success counts of each strategy, by `strategy_index`.
#[derive(Debug)]
pub struct StrategyCache {
    pub error_to_strategy: Vec<(ErrorType, RecoveryStrategy)>,
    pub strategy_usage_counts: Vec<u32>,
    pub strategy_success_counts: Vec<u32>,
    pub last_update: u64,
}

/// Counters of the recoveries. The average time is the whole milliseconds of the mean;
/// per-strategy counts are by `strategy_index`, and a strategy's success rate is its
/// successes over its uses.
#[derive(Debug, Clone)]
pub struct RecoveryStats {
    pub total_errors: u64,
    pub successful_recoveries: u64,
    pub failed_recoveries: u64,
    pub avg_recovery_time_ms: u64,
    pub total_recovery_time_ms: u64,
    pub strategy_usage_counts: Vec<u32>,
    pub strategy_success_counts: Vec<u32>,
    pub last_recovery_time: Option<u64>,
}

/// A summary of the recoveries.
#[derive(Debug, Clone)]
pub struct RecoveryReport {
    pub config: SmartErrorRecoveryConfig,
    pub stats: RecoveryStats,
    pub total_error_types: usize,
    pub detected_patterns: usize,
    pub most_common_error: Option<ErrorType>,
    pub best_performing_strategy: Option<RecoveryStrategy>,
}

/// Chooses recovery strategies and keeps the history they are chosen from.
#[derive(Debug)]
pub struct SmartErrorRecovery {
    pub config: SmartErrorRecoveryConfig,
    pub error_history: ErrorHistory,
    pub strategy_cache: StrategyCache,
    pub recovery_stats: RecoveryStats,
}

/// Per-strategy counts that hold no more successes than uses.
pub open spec fn counts_wf(usage: Seq<u32>, success: Seq<u32>) -> bool {
    &&& usage.len() == STRATEGY_COUNT
    &&& success.len() == STRATEGY_COUNT
    &&& forall|i: int| 0 <= i < STRATEGY_COUNT ==> #[trigger] success[i] <= usage[i]
}

/// How many entries of `counts` are not zero.
pub open spec fn spec_nonzero_count(counts: Seq<u32>) -> nat
    decreases counts.len(),
{
    if counts.len() == 0 {
        0
    } else {
        spec_nonzero_count(counts.drop_last()) + if counts.last() > 0 { 1nat } else { 0nat }
    }
}

/// Zero counts for every strategy or kind.
pub fn zero_counts(n: usize) -> (r: Vec<u32>)
    ensures
        r@.len() == n,
        forall|i: int| 0 <= i < n ==> #[trigger] r@[i] == 0,
{
    let mut r: Vec<u32> = Vec::new();
    let mut i: usize = 0;
    while i < n
        invariant
            i <= n,
            r@.len() == i,
            forall|j: int| 0 <= j < i ==> #[trigger] r@[j] == 0,
        decreases n - i,
    {
        r.push(0);
        i = i + 1;
    }
    r
}

/// Copies a list of counts.
pub fn copy_counts(v: &Vec<u32>) -> (r: Vec<u32>)
    ensures
        r@ == v@,
{
    let r = v.clone();
    assert(r@ =~= v@);
    r
}

/// Whether `a` and `b` hold the same kinds at the `w` positions from `i` and from `j`.
pub fn ranges_equal(v: &Vec<ErrorType>, i: usize, j: usize, w: usize) -> (r: bool)
    requires
        i + w <= v@.len(),
        j + w <= v@.len(),
    ensures
        r == (v@.subrange(i as int, i + w) == v@.subrange(j as int, j + w)),
{
    let n = v.len();
    let mut k: usize = 0;
    while k < w
        invariant
            n == v@.len(),
            i + w <= v@.len(),
            j + w <= v@.len(),
            k <= w,
            forall|m: int| 0 <= m < k ==> #[trigger] v@.subrange(i as int, i + w)[m] == v@.subrange(j as int, j + w)[m],
        decreases w - k,
    {
        if v[i + k] != v[j + k] {
            assert(v@.subrange(i as int, i + w)[k as int] != v@.subrange(j as int, j + w)[k as int]);
            return false;
        }
        k = k + 1;
    }
    assert(v@.subrange(i as int, i + w) =~= v@.subrange(j as int, j + w));
    true
}

/// The `w` kinds from position `i`.
pub fn copy_range(v: &Vec<ErrorType>, i: usize, w: usize) -> (r: Vec<ErrorType>)
    requires
        i + w <= v@.len(),
    ensures
        r@ == v@.subrange(i as int, i + w),
{
    let mut out: Vec<ErrorType> = Vec::new();
    let n = v.len();
    let mut k: usize = 0;
    while k < w
        invariant
            n == v@.len(),
            i + w <= v@.len(),
            k <= w,
            out@ == v@.subrange(i as int, i + k),
        decreases w - k,
    {
        out.push(v[i + k]);
        k = k + 1;
        assert(out@ =~= v@.subrange(i as int, i + k));
    }
    out
}

/// Whether two lists of kinds are equal.
pub fn types_equal(a: &Vec<ErrorType>, b: &Vec<ErrorType>) -> (r: bool)
    ensures
        r == (a@ == b@),
{
    if a.len() != b.len() {
        return false;
    }
    let n = a.len();
    let mut k: usize = 0;
    while k < n
        invariant
            n == a@.len(),
            n == b@.len(),
            k <= n,
            forall|m: int| 0 <= m < k ==> a@[m] == b@[m],
        decreases n - k,
    {
        if a[k] != b[k] {
            return false;
        }
        k = k + 1;
    }
    assert(a@ =~= b@);
    true
}

/// Whether some pattern has the sequence `seq`.
pub fn has_pattern(patterns: &Vec<ErrorPattern>, seq: &Vec<ErrorType>) -> (r: bool)
    ensures
        r == pattern_seqs(patterns@).contains(seq@),
{
    let n = patterns.len();
    let mut k: usize = 0;
    while k < n
        invariant
            n == patterns@.len(),
            k <= n,
            forall|m: int| 0 <= m < k ==> patterns@[m].error_sequence@ != seq@,
        decreases n - k,
    {
        if types_equal(&patterns[k].error_sequence, seq) {
            assert(pattern_seqs(patterns@)[k as int] == seq@);
            return true;
        }
        k = k + 1;
    }
    assert(!pattern_seqs(patterns@).contains(seq@)) by {
        if pattern_seqs(patterns@).contains(seq@) {
            let m = choose|m: int| 0 <= m < pattern_seqs(patterns@).len() && pattern_seqs(patterns@)[m] == seq@;
            assert(patterns@[m].error_sequence@ == seq@);
        }
    }
    false
}

/// The name of a pattern of `w` kinds.
pub fn pattern_name(w: usize) -> (r: String)
    requires
        w <= u64::MAX,
    ensures
        r@ == "重复模式_"@ + spec_decimal(w as nat),
{
    owned("重复模式_").concat(decimal_text(w as u128).as_str())
}

/// A pattern for a repeated sequence of kinds.
pub fn make_pattern(seq: Vec<ErrorType>) -> (p: ErrorPattern)
    requires
        2 <= seq@.len() <= 5,
    ensures
        pattern_wf(p),
        p.error_sequence@ == seq@,
{
    let strategy = recommend_strategy_for_pattern(&seq);
    ErrorPattern {
        name: pattern_name(seq.len()),
        error_sequence: seq,
        time_window_seconds: 300,
        occurrence_count: 1,
        recommended_strategy: strategy,
        confidence: 800,
    }
}

/// Appending a candidate appends it to the patterns unless it is already there.
proof fn lemma_add_new_push(acc: Seq<Seq<ErrorType>>, c: Seq<Seq<ErrorType>>, x: Seq<ErrorType>)
    ensures
        spec_add_new(acc, c.push(x)) == (if spec_add_new(acc, c).contains(x) {
            spec_add_new(acc, c)
        } else {
            spec_add_new(acc, c).push(x)
        }),
{
    assert(c.push(x).drop_last() =~= c);
}

/// Appending only new candidates keeps a list free of duplicates.
proof fn lemma_add_new_no_duplicates(acc: Seq<Seq<ErrorType>>, c: Seq<Seq<ErrorType>>)
    requires
        acc.no_duplicates(),
    ensures
        spec_add_new(acc, c).no_duplicates(),
    decreases c.len(),
{
    if c.len() > 0 {
        lemma_add_new_no_duplicates(acc, c.drop_last());
        let a = spec_add_new(acc, c.drop_last());
        if !a.contains(c.last()) {
            assert forall|i: int, j: int| 0 <= i < a.push(c.last()).len() && 0 <= j < a.push(c.last()).len() && i != j
                implies a.push(c.last())[i] != a.push(c.last())[j] by {
                if i < a.len() && j < a.len() {
                } else if i == a.len() {
                    assert(a[j] == a.push(c.last())[j]);
                } else {
                    assert(a[i] == a.push(c.last())[i]);
                }
            }
        }
    }
}

impl SmartErrorRecovery {
    /// The manager is well formed: its tables have one entry per kind or strategy, no
    /// strategy has more successes than uses, and the patterns are at most twenty, well
    /// formed and pairwise different.
    pub open spec fn wf(&self) -> bool {
        &&& self.error_history.error_type_counts@.len() == ERROR_TYPE_COUNT
        &&& counts_wf(self.recovery_stats.strategy_usage_counts@, self.recovery_stats.strategy_success_counts@)
        &&& counts_wf(self.strategy_cache.strategy_usage_counts@, self.strategy_cache.strategy_success_counts@)
        &&& self.error_history.patterns@.len() <= 20
        &&& forall|i: int| 0 <= i < self.error_history.patterns@.len() ==> #[trigger] pattern_wf(self.error_history.patterns@[i])
        &&& pattern_seqs(self.error_history.patterns@).no_duplicates()
    }

    /// A manager with the given settings, no history and zero counters.
    pub fn new(config: SmartErrorRecoveryConfig) -> (r: Self)
        ensures
            r.wf(),
            r.config == config,
            r.error_history.records@.len() == 0,
            r.error_history.patterns@.len() == 0,
            forall|i: int| 0 <= i < ERROR_TYPE_COUNT ==> #[trigger] r.error_history.error_type_counts@[i] == 0,
            r.recovery_stats.total_errors == 0,
            r.recovery_stats.successful_recoveries == 0,
            r.recovery_stats.failed_recoveries == 0,
            r.recovery_stats.avg_recovery_time_ms == 0,
            r.recovery_stats.total_recovery_time_ms == 0,
            forall|i: int| 0 <= i < STRATEGY_COUNT ==> #[trigger] r.recovery_stats.strategy_usage_counts@[i] == 0,
            forall|i: int| 0 <= i < STRATEGY_COUNT ==> #[trigger] r.recovery_stats.strategy_success_counts@[i] == 0,
            r.recovery_stats.last_recovery_time is None,
            r.strategy_cache.error_to_strategy@.len() == 0,
            forall|i: int| 0 <= i < STRATEGY_COUNT ==> #[trigger] r.strategy_cache.strategy_usage_counts@[i] == 0,
            forall|i: int| 0 <= i < STRATEGY_COUNT ==> #[trigger] r.strategy_cache.strategy_success_counts@[i] == 0,
            r.strategy_cache.last_update == 0,
    {
        let usage = zero_counts(STRATEGY_COUNT);
        let success = zero_counts(STRATEGY_COUNT);
        let r = SmartErrorRecovery {
            config,
            error_history: ErrorHistory {
                records: VecDeque::new(),
                error_type_counts: zero_counts(ERROR_TYPE_COUNT),
                patterns: Vec::new(),
            },
            strategy_cache: StrategyCache {
                error_to_strategy: Vec::new(),
                strategy_usage_counts: zero_counts(STRATEGY_COUNT),
                strategy_success_counts: zero_counts(STRATEGY_COUNT),
                last_update: 0,
            },
            recovery_stats: RecoveryStats {
                total_errors: 0,
                successful_recoveries: 0,
                failed_recoveries: 0,
                avg_recovery_time_ms: 0,
                total_recovery_time_ms: 0,
                strategy_usage_counts: usage,
                strategy_success_counts: success,
                last_recovery_time: None,
            },
        };
        assert(pattern_seqs(r.error_history.patterns@) =~= Seq::<Seq<ErrorType>>::empty());
        r
    }

    /// A manager with the default settings.
    pub fn with_default_config() -> (r: Self)
        ensures
            r.wf(),
            r.config == spec_default_recovery_config(),
            r.error_history.records@.len() == 0,
            r.error_history.patterns@.len() == 0,
            forall|i: int| 0 <= i < ERROR_TYPE_COUNT ==> #[trigger] r.error_history.error_type_counts@[i] == 0,
            r.recovery_stats.total_errors == 0,
            r.recovery_stats.successful_recoveries == 0,
            r.recovery_stats.failed_recoveries == 0,
            r.recovery_stats.avg_recovery_time_ms == 0,
            r.recovery_stats.total_recovery_time_ms == 0,
            forall|i: int| 0 <= i < STRATEGY_COUNT ==> #[trigger] r.recovery_stats.strategy_usage_counts@[i] == 0,
            forall|i: int| 0 <= i < STRATEGY_COUNT ==> #[trigger] r.recovery_stats.strategy_success_counts@[i] == 0,
            r.recovery_stats.last_recovery_time is None,
            r.strategy_cache.error_to_strategy@.len() == 0,
            forall|i: int| 0 <= i < STRATEGY_COUNT ==> #[trigger] r.strategy_cache.strategy_usage_counts@[i] == 0,
            forall|i: int| 0 <= i < STRATEGY_COUNT ==> #[trigger] r.strategy_cache.strategy_success_counts@[i] == 0,
            r.strategy_cache.last_update == 0,
    {
        Self::new(SmartErrorRecoveryConfig::default())
    }
}


/// The identifying fields of a record: kind, message, time and severity.
pub open spec fn record_key(r: ErrorRecord) -> (ErrorType, Seq<char>, u64, ErrorSeverity) {
    (r.error_type, r.error_message@, r.timestamp, r.severity)
}

/// The identifying fields of a list of records.
pub open spec fn history_keys(records: Seq<ErrorRecord>) -> Seq<(ErrorType, Seq<char>, u64, ErrorSeverity)> {
    records.map_values(|r: ErrorRecord| record_key(r))
}

/// The last `max` elements of `s`, or all of them if there are fewer.
pub open spec fn keep_last<A>(s: Seq<A>, max: nat) -> Seq<A> {
    if s.len() > max { s.skip(s.len() - max) } else { s }
}

/// The pattern sequences after an analysis of `types` with a window of `w` errors: when at
/// least `w` errors are recorded, the repeated windows of the latest `w` errors that are not
/// yet known are appended, and the first twenty kept.
pub open spec fn spec_analyzed(known: Seq<Seq<ErrorType>>, types: Seq<ErrorType>, w: nat) -> Seq<Seq<ErrorType>> {
    if types.len() < w {
        known
    } else {
        spec_first_twenty(spec_add_new(known, spec_cands_upto(spec_recent(types, w), 5)))
    }
}

/// The symbol of a context as characters.
pub open spec fn symbol_view(o: Option<String>) -> Option<Seq<char>> {
    match o {
        Some(s) => Some(s@),
        None => None,
    }
}

/// Appends to `patterns` each repeated window of two to five kinds of `recent` that it
/// does not hold yet, shorter windows and earlier positions first, then keeps the first
/// twenty.
pub fn scan_patterns(patterns: &mut Vec<ErrorPattern>, recent: &Vec<ErrorType>)
    requires
        forall|i: int| 0 <= i < old(patterns)@.len() ==> #[trigger] pattern_wf(old(patterns)@[i]),
        pattern_seqs(old(patterns)@).no_duplicates(),
    ensures
        pattern_seqs(final(patterns)@) == spec_first_twenty(spec_add_new(pattern_seqs(old(patterns)@), spec_cands_upto(recent@, 5))),
        forall|i: int| 0 <= i < final(patterns)@.len() ==> #[trigger] pattern_wf(final(patterns)@[i]),
        pattern_seqs(final(patterns)@).no_duplicates(),
        final(patterns)@.len() <= 20 || final(patterns)@.len() == old(patterns)@.len(),
{
    let ghost r = recent@;
    let ghost p0 = pattern_seqs(patterns@);
    let n = recent.len();
    let mut w: usize = 2;
    proof {
        assert(spec_cands_upto(r, 1) =~= Seq::<Seq<ErrorType>>::empty());
    }
    while w <= 5
        invariant
            2 <= w <= 6,
            n == r.len(),
            recent@ == r,
            pattern_seqs(patterns@) == spec_add_new(p0, spec_cands_upto(r, w - 1)),
            forall|i: int| 0 <= i < patterns@.len() ==> #[trigger] pattern_wf(patterns@[i]),
            pattern_seqs(patterns@).no_duplicates(),
            p0.no_duplicates(),
        decreases 6 - w,
    {
        let ghost before = spec_cands_upto(r, w - 1);
        if n >= 2 * w {
            let last = n - 2 * w;
            let mut i: usize = 0;
            proof {
                assert(before + spec_cands_w(r, w as int, 0) =~= before);
            }
            while i <= last
                invariant
                    2 <= w <= 5,
                    n == r.len(),
                    n >= 2 * w,
                    last == n - 2 * w,
                    i <= last + 1,
                    recent@ == r,
                    before == spec_cands_upto(r, w - 1),
                    pattern_seqs(patterns@) == spec_add_new(p0, before + spec_cands_w(r, w as int, i as int)),
                    forall|j: int| 0 <= j < patterns@.len() ==> #[trigger] pattern_wf(patterns@[j]),
                    pattern_seqs(patterns@).no_duplicates(),
                    p0.no_duplicates(),
                decreases last + 1 - i,
            {
                let ghost c0 = before + spec_cands_w(r, w as int, i as int);
                if ranges_equal(recent, i, i + w, w) {
                    let seq = copy_range(recent, i, w);
                    let ghost x = seq@;
                    proof {
                        assert(spec_repeat_at(r, w as int, i as int));
                        assert(before + spec_cands_w(r, w as int, i + 1) =~= c0.push(x));
                        lemma_add_new_push(p0, c0, x);
                    }
                    if !has_pattern(patterns, &seq) {
                        let ghost ps = patterns@;
                        let pat = make_pattern(seq);
                        patterns.push(pat);
                        proof {
                            assert(pattern_seqs(patterns@) =~= pattern_seqs(ps).push(x));
                            lemma_add_new_no_duplicates(p0, c0.push(x));
                        }
                    }
                } else {
                    proof {
                        assert(!spec_repeat_at(r, w as int, i as int));
                        assert(before + spec_cands_w(r, w as int, i + 1) =~= c0);
                    }
                }
                i = i + 1;
            }
            proof {
                assert(spec_positions(r, w as int) == last + 1);
            }
        } else {
            proof {
                assert(spec_positions(r, w as int) == 0);
                assert(before + spec_cands_w(r, w as int, 0) =~= before);
            }
        }
        w = w + 1;
    }
    if patterns.len() > 20 {
        let ghost ps = patterns@;
        patterns.truncate(20);
        proof {
            assert(pattern_seqs(patterns@) =~= pattern_seqs(ps).take(20));
            assert forall|i: int, j: int| 0 <= i < pattern_seqs(patterns@).len() && 0 <= j < pattern_seqs(patterns@).len() && i != j
                implies pattern_seqs(patterns@)[i] != pattern_seqs(patterns@)[j] by {
                assert(pattern_seqs(ps)[i] != pattern_seqs(ps)[j]);
            }
            assert forall|i: int| 0 <= i < patterns@.len() implies #[trigger] pattern_wf(patterns@[i]) by {
                assert(patterns@[i] == ps[i]);
            }
        }
    }
}

/// Appends a record and drops the oldest ones until at most `max` are left.
pub fn push_bounded(records: &mut VecDeque<ErrorRecord>, record: ErrorRecord, max: usize)
    ensures
        final(records)@ == keep_last(old(records)@.push(record), max as nat),
{
    let ghost s = records@.push(record);
    records.push_back(record);
    while records.len() > max
        invariant
            records@.len() <= s.len(),
            records@ == s.skip(s.len() - records@.len()),
            records@.len() == s.len() || records@.len() >= max,
        decreases records@.len(),
    {
        let ghost before = records@;
        let _ = records.pop_front();
        proof {
            assert(before.subrange(1, before.len() as int) =~= s.skip(s.len() - records@.len()));
        }
    }
    assert(records@ =~= keep_last(s, max as nat));
}

/// The strategy that the first entry for `e` names, if there is one.
pub fn find_cached(table: &Vec<(ErrorType, RecoveryStrategy)>, e: ErrorType) -> (r: Option<RecoveryStrategy>)
    ensures
        r == spec_cached(table@, e),
{
    let n = table.len();
    let mut i: usize = 0;
    assert(table@.skip(0) =~= table@);
    while i < n
        invariant
            n == table@.len(),
            i <= n,
            spec_cached(table@, e) == spec_cached(table@.skip(i as int), e),
        decreases n - i,
    {
        proof {
            assert(table@.skip(i as int).drop_first() =~= table@.skip(i + 1));
        }
        if table[i].0 == e {
            return Some(table[i].1);
        }
        i = i + 1;
    }
    None
}

/// The strategy of the first pattern that holds `e` with a confidence above eight tenths.
pub fn find_pattern_choice(patterns: &Vec<ErrorPattern>, e: ErrorType) -> (r: Option<RecoveryStrategy>)
    ensures
        r == spec_pattern_choice(patterns@, e),
{
    let n = patterns.len();
    let mut i: usize = 0;
    assert(patterns@.skip(0) =~= patterns@);
    while i < n
        invariant
            n == patterns@.len(),
            i <= n,
            spec_pattern_choice(patterns@, e) == spec_pattern_choice(patterns@.skip(i as int), e),
        decreases n - i,
    {
        proof {
            assert(patterns@.skip(i as int).drop_first() =~= patterns@.skip(i + 1));
        }
        if contains_error_type(&patterns[i].error_sequence, e) && patterns[i].confidence > 800 {
            return Some(patterns[i].recommended_strategy);
        }
        i = i + 1;
    }
    None
}

/// What recording an error of kind `error_type` with `error_message`, `severity` and
/// `context` at `now` does to a manager `a`, giving `b`: the record is appended to the
/// history, of which only the latest `max_error_history` are kept; the kind's count and the
/// error total grow by one; and with smart selection on the patterns are searched again.
pub open spec fn spec_record_outcome(
    a: SmartErrorRecovery,
    b: SmartErrorRecovery,
    error_type: ErrorType,
    error_message: String,
    severity: ErrorSeverity,
    context: ErrorContext,
    now: u64,
) -> bool {
    &&& b.config == a.config
    &&& history_keys(b.error_history.records@) == keep_last(
        history_keys(a.error_history.records@).push((error_type, error_message@, now, severity)),
        a.config.max_error_history as nat,
    )
    &&& b.error_history.records@.len() <= a.config.max_error_history
    &&& b.error_history.records@.len() > 0 ==> {
        &&& b.error_history.records@.last().context == context
        &&& b.error_history.records@.last().recovery_attempts@.len() == 0
    }
    &&& b.error_history.error_type_counts@ == a.error_history.error_type_counts@.update(
        error_type_index(error_type),
        (a.error_history.error_type_counts@[error_type_index(error_type)] + 1) as u32,
    )
    &&& b.recovery_stats.total_errors == a.recovery_stats.total_errors + 1
    &&& b.recovery_stats.successful_recoveries == a.recovery_stats.successful_recoveries
    &&& b.recovery_stats.failed_recoveries == a.recovery_stats.failed_recoveries
    &&& b.recovery_stats.strategy_usage_counts@ == a.recovery_stats.strategy_usage_counts@
    &&& b.recovery_stats.strategy_success_counts@ == a.recovery_stats.strategy_success_counts@
    &&& b.strategy_cache.error_to_strategy@ == a.strategy_cache.error_to_strategy@
    &&& pattern_seqs(b.error_history.patterns@) == if a.config.enable_smart_strategy {
        spec_analyzed(
            pattern_seqs(a.error_history.patterns@),
            record_types(b.error_history.records@),
            a.config.analysis_window_size as nat,
        )
    } else {
        pattern_seqs(a.error_history.patterns@)
    }
}

impl SmartErrorRecovery {
    /// The strategy chosen when smart selection is on: a strategy that the cache names for
    /// the kind and that succeeded in more than seven of ten uses, else that of the first
    /// confident pattern holding the kind, else the one the context gives.
    pub open spec fn spec_smart_choice(&self, e: ErrorType, status: ConnectionStatus, quality: Option<u32>) -> RecoveryStrategy {
        match spec_cached(self.strategy_cache.error_to_strategy@, e) {
            Some(s) if spec_rate_above_seven_tenths(
                self.strategy_cache.strategy_usage_counts@,
                self.strategy_cache.strategy_success_counts@,
                s,
            ) => s,
            _ => match spec_pattern_choice(self.error_history.patterns@, e) {
                Some(s) => s,
                None => spec_context_strategy(e, status, quality),
            },
        }
    }

    /// Records an error seen at `now`. The oldest records beyond the history's size are
    /// dropped, the kind's count and the error total grow by one, and with smart selection
    /// on the history is searched for patterns.
    pub fn record_error_at(
        &mut self,
        error_type: ErrorType,
        error_message: String,
        severity: ErrorSeverity,
        context: ErrorContext,
        now: u64,
    )
        requires
            old(self).wf(),
            old(self).error_history.error_type_counts@[error_type_index(error_type)] < u32::MAX,
            old(self).recovery_stats.total_errors < u64::MAX,
        ensures
            final(self).wf(),
            final(self).config == old(self).config,
            history_keys(final(self).error_history.records@) == keep_last(
                history_keys(old(self).error_history.records@).push((error_type, error_message@, now, severity)),
                old(self).config.max_error_history as nat,
            ),
            final(self).error_history.records@.len() <= old(self).config.max_error_history,
            final(self).error_history.records@.len() > 0 ==> {
                &&& final(self).error_history.records@.last().context == context
                &&& final(self).error_history.records@.last().recovery_attempts@.len() == 0
            },
            final(self).error_history.error_type_counts@ == old(self).error_history.error_type_counts@.update(
                error_type_index(error_type),
                (old(self).error_history.error_type_counts@[error_type_index(error_type)] + 1) as u32,
            ),
            final(self).recovery_stats.total_errors == old(self).recovery_stats.total_errors + 1,
            final(self).recovery_stats.successful_recoveries == old(self).recovery_stats.successful_recoveries,
            final(self).recovery_stats.failed_recoveries == old(self).recovery_stats.failed_recoveries,
            final(self).recovery_stats.strategy_usage_counts@ == old(self).recovery_stats.strategy_usage_counts@,
            final(self).recovery_stats.strategy_success_counts@ == old(self).recovery_stats.strategy_success_counts@,
            final(self).strategy_cache.error_to_strategy@ == old(self).strategy_cache.error_to_strategy@,
            pattern_seqs(final(self).error_history.patterns@) == if old(self).config.enable_smart_strategy {
                spec_analyzed(
                    pattern_seqs(old(self).error_history.patterns@),
                    record_types(final(self).error_history.records@),
                    old(self).config.analysis_window_size as nat,
                )
            } else {
                pattern_seqs(old(self).error_history.patterns@)
            },
    {
        let record = ErrorRecord {
            error_type,
            error_message,
            timestamp: now,
            severity,
            context,
            recovery_attempts: Vec::new(),
        };
        let ghost rec = record;
        let ghost s = self.error_history.records@.push(rec);
        let max = self.config.max_error_history;
        push_bounded(&mut self.error_history.records, record, max);
        proof {
            let k = keep_last(s, max as nat);
            assert(history_keys(k) =~= keep_last(history_keys(old(self).error_history.records@).push(record_key(rec)), max as nat));
            if self.error_history.records@.len() > 0 {
                assert(self.error_history.records@.last() == s.last());
            }
        }
        let slot = error_type_slot(error_type);
        let c = self.error_history.error_type_counts[slot];
        self.error_history.error_type_counts.set(slot, c + 1);
        self.recovery_stats.total_errors = self.recovery_stats.total_errors + 1;
        if self.config.enable_smart_strategy {
            self.analyze_error_patterns();
        }
    }

    /// Records an error seen now, by the system clock.
    pub fn record_error(
        &mut self,
        error_type: ErrorType,
        error_message: String,
        severity: ErrorSeverity,
        context: ErrorContext,
    )
        requires
            old(self).wf(),
            old(self).error_history.error_type_counts@[error_type_index(error_type)] < u32::MAX,
            old(self).recovery_stats.total_errors < u64::MAX,
        ensures
            final(self).wf(),
            final(self).config == old(self).config,
            final(self).error_history.records@.len() <= old(self).config.max_error_history,
            final(self).error_history.records@.len() > 0 ==> final(self).error_history.records@.last().error_type == error_type,
            final(self).recovery_stats.total_errors == old(self).recovery_stats.total_errors + 1,
            exists|now: u64| #[trigger] spec_record_outcome(*old(self), *final(self), error_type, error_message, severity, context, now),
    {
        let now = now_millis();
        let ghost a = *self;
        let ghost m0 = error_message;
        let ghost c0 = context;
        self.record_error_at(error_type, error_message, severity, context, now);
        assert(spec_record_outcome(a, *self, error_type, m0, severity, c0, now));
        proof {
            let recs = self.error_history.records@;
            if recs.len() > 0 {
                let hk = history_keys(recs);
                let full = history_keys(old(self).error_history.records@).push((error_type, error_message@, now, severity));
                assert(hk[hk.len() - 1] == record_key(recs[recs.len() - 1]));
                assert(full[full.len() - 1].0 == error_type);
                assert(hk[hk.len() - 1] == full[full.len() - 1]);
            }
        }
    }

    /// Searches the latest errors for sequences of two to five kinds seen twice in a row and
    /// keeps the new ones as patterns, at most twenty in all. Nothing happens while fewer
    /// errors than the analysis window are recorded.
    pub fn analyze_error_patterns(&mut self)
        requires
            old(self).wf(),
        ensures
            final(self).wf(),
            final(self).config == old(self).config,
            final(self).error_history.records@ == old(self).error_history.records@,
            final(self).error_history.error_type_counts@ == old(self).error_history.error_type_counts@,
            final(self).recovery_stats == old(self).recovery_stats,
            final(self).strategy_cache == old(self).strategy_cache,
            pattern_seqs(final(self).error_history.patterns@) == spec_analyzed(
                pattern_seqs(old(self).error_history.patterns@),
                record_types(old(self).error_history.records@),
                old(self).config.analysis_window_size as nat,
            ),
    {
        let n = self.error_history.records.len();
        let window = self.config.analysis_window_size;
        if n < window {
            return;
        }
        let ghost types = record_types(self.error_history.records@);
        let mut recent: Vec<ErrorType> = Vec::new();
        let mut k: usize = 0;
        while k < window
            invariant
                n == self.error_history.records@.len(),
                window <= n,
                k <= window,
                types == record_types(self.error_history.records@),
                recent@ == spec_recent(types, window as nat).take(k as int),
            decreases window - k,
        {
            recent.push(self.error_history.records[n - 1 - k].error_type);
            k = k + 1;
            assert(recent@ =~= spec_recent(types, window as nat).take(k as int));
        }
        assert(recent@ =~= spec_recent(types, window as nat));
        scan_patterns(&mut self.error_history.patterns, &recent);
    }

    /// The strategy for an error: by smart selection when it is on, else the default one.
    pub fn select_recovery_strategy(&self, error_type: ErrorType, context: &ErrorContext) -> (r: RecoveryStrategy)
        requires
            self.wf(),
        ensures
            r == if self.config.enable_smart_strategy {
                self.spec_smart_choice(error_type, context.connection_status, context.network_quality)
            } else {
                spec_default_strategy(error_type)
            },
    {
        if self.config.enable_smart_strategy {
            self.select_smart_strategy(error_type, context)
        } else {
            select_default_strategy(error_type)
        }
    }

    /// Smart selection: the cache, then the patterns, then the context.
    pub fn select_smart_strategy(&self, error_type: ErrorType, context: &ErrorContext) -> (r: RecoveryStrategy)
        requires
            self.wf(),
        ensures
            r == self.spec_smart_choice(error_type, context.connection_status, context.network_quality),
    {
        match find_cached(&self.strategy_cache.error_to_strategy, error_type) {
            Some(strategy) => {
                let i = strategy_slot(strategy);
                let used = self.strategy_cache.strategy_usage_counts[i];
                let won = self.strategy_cache.strategy_success_counts[i];
                if used > 0 && 10 * (won as u64) > 7 * (used as u64) {
                    return strategy;
                }
            },
            None => {},
        }
        match find_pattern_choice(&self.error_history.patterns, error_type) {
            Some(strategy) => strategy,
            None => select_context_based_strategy(error_type, context),
        }
    }

    /// The delay before retry number `attempt`, in milliseconds.
    pub fn calculate_exponential_backoff_delay(&self, attempt: u32) -> (r: u64)
        ensures
            r == spec_backoff_ms(self.config, attempt),
    {
        backoff_delay_ms(&self.config, attempt)
    }

    /// The actions of a strategy for an error in `context`; events are stamped `now`.
    pub fn generate_recovery_actions_at(
        &self,
        strategy: RecoveryStrategy,
        context: &ErrorContext,
        now: u64,
    ) -> (r: Vec<RecoveryAction>)
        ensures
            actions_view(r@) == spec_recovery_actions(strategy, symbol_view(context.symbol), self.config, now),
    {
        proof {
            reveal_strlit("backup_endpoint");
            reveal_strlit("服务降级");
            reveal_strlit("服务暂停");
        }
        let r = match strategy {
            RecoveryStrategy::ImmediateRetry => vec![RecoveryAction::Wait(100u128)],
            RecoveryStrategy::DelayedRetry => vec![RecoveryAction::Wait(self.config.base_retry_interval_ms as u128)],
            RecoveryStrategy::ExponentialBackoffRetry => {
                let delay = self.calculate_exponential_backoff_delay(1);
                vec![RecoveryAction::Wait(delay as u128)]
            },
            RecoveryStrategy::Reconnect => vec![
                RecoveryAction::CloseConnection,
                RecoveryAction::Wait(1000u128),
                RecoveryAction::EstablishConnection,
            ],
            RecoveryStrategy::Reauthenticate => vec![RecoveryAction::SendAuthentication],
            RecoveryStrategy::Resubscribe => match &context.symbol {
                Some(symbol) => vec![RecoveryAction::SendSubscription(symbol.clone())],
                None => vec![RecoveryAction::ClearState],
            },
            RecoveryStrategy::SwitchServer => vec![
                RecoveryAction::CloseConnection,
                RecoveryAction::SwitchEndpoint(owned("backup_endpoint")),
                RecoveryAction::EstablishConnection,
            ],
            RecoveryStrategy::DegradeService => vec![
                RecoveryAction::EmitSystemEvent(SystemEvent::ServiceDegraded {
                    exchange: ExchangeType::Binance,
                    market_type: MarketType::Spot,
                    reason: owned("服务降级"),
                    timestamp: now,
                }),
                RecoveryAction::ClearState,
            ],
            RecoveryStrategy::PauseService => vec![
                RecoveryAction::EmitSystemEvent(SystemEvent::ServicePaused {
                    exchange: ExchangeType::Binance,
                    market_type: MarketType::Spot,
                    reason: owned("服务暂停"),
                    timestamp: now,
                }),
                RecoveryAction::Wait(30000u128),
            ],
            RecoveryStrategy::RestartConnector => vec![
                RecoveryAction::CloseConnection,
                RecoveryAction::ClearState,
                RecoveryAction::ResetConfiguration,
                RecoveryAction::EstablishConnection,
            ],
            RecoveryStrategy::ClearCache => vec![RecoveryAction::ClearState],
            RecoveryStrategy::WaitAndRecover => vec![
                RecoveryAction::Wait((self.config.health_check_interval_seconds as u128) * 1000),
                RecoveryAction::EstablishConnection,
            ],
            RecoveryStrategy::ResetConfiguration => vec![
                RecoveryAction::ResetConfiguration,
                RecoveryAction::ClearState,
            ],
        };
        assert(actions_view(r@) =~= spec_recovery_actions(strategy, symbol_view(context.symbol), self.config, now));
        r
    }

    /// The actions of a strategy, with events stamped by the system clock.
    pub fn generate_recovery_actions(&self, strategy: RecoveryStrategy, context: &ErrorContext) -> (r: Vec<RecoveryAction>)
        ensures
            exists|now: u64| actions_view(r@) == spec_recovery_actions(strategy, symbol_view(context.symbol), self.config, now),
    {
        let now = now_millis();
        self.generate_recovery_actions_at(strategy, context, now)
    }
}


/// The milliseconds from `start` to `end`, or zero when `end` is earlier.
pub open spec fn spec_elapsed(start: u64, end: u64) -> u64 {
    if end >= start { (end - start) as u64 } else { 0 }
}

/// Copies the context of an error.
pub fn clone_context(c: &ErrorContext) -> (r: ErrorContext)
    requires
        c.additional_info.wf(),
    ensures
        r.exchange@ == c.exchange@,
        symbol_view(r.symbol) == symbol_view(c.symbol),
        r.connection_status == c.connection_status,
        r.network_quality == c.network_quality,
        r.system_load == c.system_load,
        r.additional_info.wf(),
        r.additional_info.view() == c.additional_info.view(),
{
    ErrorContext {
        exchange: c.exchange.clone(),
        symbol: match &c.symbol {
            Some(s) => Some(s.clone()),
            None => None,
        },
        connection_status: c.connection_status,
        network_quality: c.network_quality,
        system_load: c.system_load,
        additional_info: clone_string_map(&c.additional_info),
    }
}

/// Copies an attempt.
pub fn clone_attempt(a: &RecoveryAttempt) -> (r: RecoveryAttempt)
    ensures
        r.attempt_number == a.attempt_number,
        r.strategy == a.strategy,
        r.start_time == a.start_time,
        r.end_time == a.end_time,
        r.success == a.success,
        actions_view(r.actions@) == actions_view(a.actions@),
        symbol_view(r.result_message) == symbol_view(a.result_message),
{
    RecoveryAttempt {
        attempt_number: a.attempt_number,
        strategy: a.strategy,
        start_time: a.start_time,
        end_time: a.end_time,
        success: a.success,
        actions: clone_actions(&a.actions),
        result_message: match &a.result_message {
            Some(m) => Some(m.clone()),
            None => None,
        },
    }
}

/// Copies a record.
pub fn clone_record(rec: &ErrorRecord) -> (r: ErrorRecord)
    requires
        rec.context.additional_info.wf(),
    ensures
        record_key(r) == record_key(*rec),
        r.context.exchange@ == rec.context.exchange@,
        symbol_view(r.context.symbol) == symbol_view(rec.context.symbol),
        r.context.connection_status == rec.context.connection_status,
        r.recovery_attempts@.len() == rec.recovery_attempts@.len(),
{
    let n = rec.recovery_attempts.len();
    let mut attempts: Vec<RecoveryAttempt> = Vec::new();
    let mut i: usize = 0;
    while i < n
        invariant
            n == rec.recovery_attempts@.len(),
            i <= n,
            attempts@.len() == i,
        decreases n - i,
    {
        attempts.push(clone_attempt(&rec.recovery_attempts[i]));
        i = i + 1;
    }
    ErrorRecord {
        error_type: rec.error_type,
        error_message: rec.error_message.clone(),
        timestamp: rec.timestamp,
        severity: rec.severity,
        context: clone_context(&rec.context),
        recovery_attempts: attempts,
    }
}

/// The message of a finished recovery.
pub fn recovery_message(success: bool, ms: u64) -> (r: String)
    ensures
        r@ == spec_recovery_message(success, ms),
{
    let head = if success { owned("恢复成功，耗时 ") } else { owned("恢复失败，耗时 ") };
    let digits = decimal_text(ms as u128);
    head.concat(digits.as_str()).concat("ms")
}

impl SmartErrorRecovery {
    /// Records the outcome of a recovery that used `strategy`: its attempt is added to the
    /// record, the strategy's counts and the average time are updated, and the result says
    /// how long it took. The outcome is stamped with `end_time`.
    pub fn complete_recovery(
        &mut self,
        strategy: RecoveryStrategy,
        error_record: &mut ErrorRecord,
        actions: Vec<RecoveryAction>,
        success: bool,
        start_time: u64,
        end_time: u64,
    ) -> (r: RecoveryResult)
        requires
            old(self).wf(),
            old(error_record).recovery_attempts@.len() < u32::MAX,
            old(self).recovery_stats.successful_recoveries < u64::MAX,
            old(self).recovery_stats.failed_recoveries < u64::MAX,
            old(self).recovery_stats.successful_recoveries + old(self).recovery_stats.failed_recoveries < u64::MAX,
            old(self).recovery_stats.total_recovery_time_ms + spec_elapsed(start_time, end_time) <= u64::MAX,
            old(self).recovery_stats.strategy_usage_counts@[strategy_index(strategy)] < u32::MAX,
        ensures
            final(self).wf(),
            final(self).config == old(self).config,
            final(error_record).recovery_attempts@.len() == old(error_record).recovery_attempts@.len() + 1,
            final(error_record).recovery_attempts@.drop_last() == old(error_record).recovery_attempts@,
            ({
                let a = final(error_record).recovery_attempts@.last();
                &&& a.attempt_number == old(error_record).recovery_attempts@.len() + 1
                &&& a.strategy == strategy
                &&& a.start_time == start_time
                &&& a.end_time == Some(end_time)
                &&& a.success == Some(success)
                &&& actions_view(a.actions@) == actions_view(actions@)
                &&& symbol_view(a.result_message) == Some(if success { "恢复成功"@ } else { "恢复失败"@ })
            }),
            record_key(*final(error_record)) == record_key(*old(error_record)),
            final(error_record).context == old(error_record).context,
            r.success == success,
            r.strategy == strategy,
            actions_view(r.actions@) == actions_view(actions@),
            r.recovery_time_ms == spec_elapsed(start_time, end_time),
            r.retry_count == old(error_record).recovery_attempts@.len() + 1,
            r.message@ == spec_recovery_message(success, spec_elapsed(start_time, end_time)),
            final(self).stats_after(old(self), strategy, success, spec_elapsed(start_time, end_time), end_time),
            final(self).error_history == old(self).error_history,
    {
        proof {
            reveal_strlit("恢复成功");
            reveal_strlit("恢复失败");
        }
        let attempt_number = error_record.recovery_attempts.len() as u32 + 1;
        let attempt = RecoveryAttempt {
            attempt_number,
            strategy,
            start_time,
            end_time: Some(end_time),
            success: Some(success),
            actions: clone_actions(&actions),
            result_message: Some(if success { owned("恢复成功") } else { owned("恢复失败") }),
        };
        error_record.recovery_attempts.push(attempt);
        let recovery_time_ms = if end_time >= start_time { end_time - start_time } else { 0 };
        self.update_recovery_stats_at(strategy, success, recovery_time_ms, end_time);
        RecoveryResult {
            success,
            strategy,
            actions,
            recovery_time_ms,
            retry_count: attempt_number,
            message: recovery_message(success, recovery_time_ms),
        }
    }

    /// What the counters are after a recovery with `strategy` that took `ms` milliseconds
    /// and ended at `now`, given those of `old`: one more success or failure, the time
    /// added to the total and the average recomputed, one more use (and success) of the
    /// strategy, and the cache holding the new per-strategy counts.
    pub open spec fn stats_after(&self, old: &Self, strategy: RecoveryStrategy, success: bool, ms: u64, now: u64) -> bool {
        let i = strategy_index(strategy);
        let st = self.recovery_stats;
        let os = old.recovery_stats;
        &&& st.total_errors == os.total_errors
        &&& st.successful_recoveries == os.successful_recoveries + if success { 1int } else { 0int }
        &&& st.failed_recoveries == os.failed_recoveries + if success { 0int } else { 1int }
        &&& st.total_recovery_time_ms == os.total_recovery_time_ms + ms
        &&& st.avg_recovery_time_ms == (st.total_recovery_time_ms as int) / ((st.successful_recoveries + st.failed_recoveries) as int)
        &&& st.strategy_usage_counts@ == os.strategy_usage_counts@.update(i, (os.strategy_usage_counts@[i] + 1) as u32)
        &&& st.strategy_success_counts@ == if success {
            os.strategy_success_counts@.update(i, (os.strategy_success_counts@[i] + 1) as u32)
        } else {
            os.strategy_success_counts@
        }
        &&& st.last_recovery_time == Some(now)
        &&& self.strategy_cache.strategy_usage_counts@ == st.strategy_usage_counts@
        &&& self.strategy_cache.strategy_success_counts@ == st.strategy_success_counts@
        &&& self.strategy_cache.error_to_strategy@ == old.strategy_cache.error_to_strategy@
        &&& self.strategy_cache.last_update == now
    }

    /// Counts a recovery with `strategy` that took `recovery_time_ms` and ended at `now`,
    /// and refreshes the strategy cache.
    pub fn update_recovery_stats_at(&mut self, strategy: RecoveryStrategy, success: bool, recovery_time_ms: u64, now: u64)
        requires
            old(self).wf(),
            old(self).recovery_stats.successful_recoveries < u64::MAX,
            old(self).recovery_stats.failed_recoveries < u64::MAX,
            old(self).recovery_stats.successful_recoveries + old(self).recovery_stats.failed_recoveries < u64::MAX,
            old(self).recovery_stats.total_recovery_time_ms + recovery_time_ms <= u64::MAX,
            old(self).recovery_stats.strategy_usage_counts@[strategy_index(strategy)] < u32::MAX,
        ensures
            final(self).wf(),
            final(self).config == old(self).config,
            final(self).error_history == old(self).error_history,
            final(self).stats_after(old(self), strategy, success, recovery_time_ms, now),
    {
        if success {
            self.recovery_stats.successful_recoveries = self.recovery_stats.successful_recoveries + 1;
        } else {
            self.recovery_stats.failed_recoveries = self.recovery_stats.failed_recoveries + 1;
        }
        let total = self.recovery_stats.successful_recoveries + self.recovery_stats.failed_recoveries;
        self.recovery_stats.total_recovery_time_ms = self.recovery_stats.total_recovery_time_ms + recovery_time_ms;
        self.recovery_stats.avg_recovery_time_ms = self.recovery_stats.total_recovery_time_ms / total;
        let i = strategy_slot(strategy);
        let used = self.recovery_stats.strategy_usage_counts[i];
        self.recovery_stats.strategy_usage_counts.set(i, used + 1);
        if success {
            let won = self.recovery_stats.strategy_success_counts[i];
            self.recovery_stats.strategy_success_counts.set(i, won + 1);
        }
        self.recovery_stats.last_recovery_time = Some(now);
        self.update_strategy_cache_at(now);
    }

    /// Copies the per-strategy counts into the strategy cache.
    pub fn update_strategy_cache_at(&mut self, now: u64)
        requires
            counts_wf(old(self).recovery_stats.strategy_usage_counts@, old(self).recovery_stats.strategy_success_counts@),
        ensures
            final(self).config == old(self).config,
            final(self).error_history == old(self).error_history,
            final(self).recovery_stats == old(self).recovery_stats,
            final(self).strategy_cache.strategy_usage_counts@ == old(self).recovery_stats.strategy_usage_counts@,
            final(self).strategy_cache.strategy_success_counts@ == old(self).recovery_stats.strategy_success_counts@,
            final(self).strategy_cache.error_to_strategy == old(self).strategy_cache.error_to_strategy,
            final(self).strategy_cache.last_update == now,
    {
        self.strategy_cache.strategy_usage_counts = copy_counts(&self.recovery_stats.strategy_usage_counts);
        self.strategy_cache.strategy_success_counts = copy_counts(&self.recovery_stats.strategy_success_counts);
        self.strategy_cache.last_update = now;
    }

    /// A copy of the counters.
    pub fn get_recovery_stats(&self) -> (r: RecoveryStats)
        ensures
            r.total_errors == self.recovery_stats.total_errors,
            r.successful_recoveries == self.recovery_stats.successful_recoveries,
            r.failed_recoveries == self.recovery_stats.failed_recoveries,
            r.avg_recovery_time_ms == self.recovery_stats.avg_recovery_time_ms,
            r.total_recovery_time_ms == self.recovery_stats.total_recovery_time_ms,
            r.strategy_usage_counts@ == self.recovery_stats.strategy_usage_counts@,
            r.strategy_success_counts@ == self.recovery_stats.strategy_success_counts@,
            r.last_recovery_time == self.recovery_stats.last_recovery_time,
    {
        RecoveryStats {
            total_errors: self.recovery_stats.total_errors,
            successful_recoveries: self.recovery_stats.successful_recoveries,
            failed_recoveries: self.recovery_stats.failed_recoveries,
            avg_recovery_time_ms: self.recovery_stats.avg_recovery_time_ms,
            total_recovery_time_ms: self.recovery_stats.total_recovery_time_ms,
            strategy_usage_counts: copy_counts(&self.recovery_stats.strategy_usage_counts),
            strategy_success_counts: copy_counts(&self.recovery_stats.strategy_success_counts),
            last_recovery_time: self.recovery_stats.last_recovery_time,
        }
    }

    /// A copy of the recorded errors, oldest first.
    pub fn get_error_history(&self) -> (r: Vec<ErrorRecord>)
        requires
            forall|i: int| 0 <= i < self.error_history.records@.len()
                ==> (#[trigger] self.error_history.records@[i]).context.additional_info.wf(),
        ensures
            history_keys(r@) == history_keys(self.error_history.records@),
    {
        let n = self.error_history.records.len();
        let mut out: Vec<ErrorRecord> = Vec::new();
        let mut i: usize = 0;
        while i < n
            invariant
                n == self.error_history.records@.len(),
                i <= n,
                out@.len() == i,
                forall|j: int| 0 <= j < self.error_history.records@.len()
                    ==> (#[trigger] self.error_history.records@[j]).context.additional_info.wf(),
                forall|j: int| 0 <= j < i ==> record_key(#[trigger] out@[j]) == record_key(self.error_history.records@[j]),
            decreases n - i,
        {
            out.push(clone_record(&self.error_history.records[i]));
            i = i + 1;
        }
        assert(history_keys(out@) =~= history_keys(self.error_history.records@));
        out
    }

    /// Forgets the recorded errors, the per-kind counts and the patterns.
    pub fn clear_history(&mut self)
        requires
            old(self).wf(),
        ensures
            final(self).wf(),
            final(self).config == old(self).config,
            final(self).error_history.records@.len() == 0,
            final(self).error_history.patterns@.len() == 0,
            forall|i: int| 0 <= i < ERROR_TYPE_COUNT ==> #[trigger] final(self).error_history.error_type_counts@[i] == 0,
            final(self).recovery_stats == old(self).recovery_stats,
            final(self).strategy_cache == old(self).strategy_cache,
    {
        self.error_history.records.clear();
        self.error_history.error_type_counts = zero_counts(ERROR_TYPE_COUNT);
        self.error_history.patterns.clear();
        assert(pattern_seqs(self.error_history.patterns@) =~= Seq::<Seq<ErrorType>>::empty());
    }

    /// Sets every counter back to zero.
    pub fn reset_stats(&mut self)
        requires
            old(self).wf(),
        ensures
            final(self).wf(),
            final(self).config == old(self).config,
            final(self).error_history == old(self).error_history,
            final(self).strategy_cache == old(self).strategy_cache,
            final(self).recovery_stats.total_errors == 0,
            final(self).recovery_stats.successful_recoveries == 0,
            final(self).recovery_stats.failed_recoveries == 0,
            final(self).recovery_stats.avg_recovery_time_ms == 0,
            final(self).recovery_stats.total_recovery_time_ms == 0,
            forall|i: int| 0 <= i < STRATEGY_COUNT ==> {
                &&& #[trigger] final(self).recovery_stats.strategy_usage_counts@[i] == 0
                &&& final(self).recovery_stats.strategy_success_counts@[i] == 0
            },
            final(self).recovery_stats.last_recovery_time is None,
    {
        self.recovery_stats = RecoveryStats {
            total_errors: 0,
            successful_recoveries: 0,
            failed_recoveries: 0,
            avg_recovery_time_ms: 0,
            total_recovery_time_ms: 0,
            strategy_usage_counts: zero_counts(STRATEGY_COUNT),
            strategy_success_counts: zero_counts(STRATEGY_COUNT),
            last_recovery_time: None,
        };
    }

    /// Replaces the settings.
    pub fn update_config(&mut self, new_config: SmartErrorRecoveryConfig)
        ensures
            final(self).config == new_config,
            final(self).error_history == old(self).error_history,
            final(self).strategy_cache == old(self).strategy_cache,
            final(self).recovery_stats == old(self).recovery_stats,
    {
        self.config = new_config;
    }

    /// A summary: the settings, the counters, how many kinds of error were seen, how many
    /// patterns are known, the most frequent kind and the strategy with the best success
    /// rate. Which of several equally good ones is named is not fixed.
    pub fn generate_recovery_report(&self) -> (r: RecoveryReport)
        requires
            self.wf(),
        ensures
            r.config == self.config,
            r.stats.total_errors == self.recovery_stats.total_errors,
            r.stats.successful_recoveries == self.recovery_stats.successful_recoveries,
            r.stats.failed_recoveries == self.recovery_stats.failed_recoveries,
            r.stats.avg_recovery_time_ms == self.recovery_stats.avg_recovery_time_ms,
            r.stats.strategy_usage_counts@ == self.recovery_stats.strategy_usage_counts@,
            r.stats.strategy_success_counts@ == self.recovery_stats.strategy_success_counts@,
            r.total_error_types == spec_nonzero_count(self.error_history.error_type_counts@),
            r.detected_patterns == self.error_history.patterns@.len(),
            match r.most_common_error {
                None => forall|i: int| 0 <= i < ERROR_TYPE_COUNT ==> #[trigger] self.error_history.error_type_counts@[i] == 0,
                Some(e) => {
                    let c = self.error_history.error_type_counts@;
                    &&& c[error_type_index(e)] > 0
                    &&& forall|i: int| 0 <= i < ERROR_TYPE_COUNT ==> #[trigger] c[i] <= c[error_type_index(e)]
                },
            },
            match r.best_performing_strategy {
                None => forall|i: int| 0 <= i < STRATEGY_COUNT ==> #[trigger] self.recovery_stats.strategy_usage_counts@[i] == 0,
                Some(s) => {
                    let u = self.recovery_stats.strategy_usage_counts@;
                    let w = self.recovery_stats.strategy_success_counts@;
                    let b = strategy_index(s);
                    &&& u[b] > 0
                    &&& forall|i: int| 0 <= i < STRATEGY_COUNT && #[trigger] u[i] > 0 ==> w[i] * u[b] <= w[b] * u[i]
                },
            },
    {
        let stats = self.get_recovery_stats();
        let counts = &self.error_history.error_type_counts;
        let mut kinds: usize = 0;
        let mut most: Option<usize> = None;
        let mut i: usize = 0;
        while i < ERROR_TYPE_COUNT
            invariant
                counts@.len() == ERROR_TYPE_COUNT,
                i <= ERROR_TYPE_COUNT,
                kinds == spec_nonzero_count(counts@.take(i as int)),
                kinds <= i,
                match most {
                    None => forall|j: int| 0 <= j < i ==> #[trigger] counts@[j] == 0,
                    Some(m) => m < i && counts@[m as int] > 0 && forall|j: int| 0 <= j < i ==> #[trigger] counts@[j] <= counts@[m as int],
                },
            decreases ERROR_TYPE_COUNT - i,
        {
            proof {
                assert(counts@.take(i + 1).drop_last() =~= counts@.take(i as int));
            }
            let c = counts[i];
            if c > 0 {
                kinds = kinds + 1;
                match most {
                    None => {
                        most = Some(i);
                    },
                    Some(m) => {
                        if c > counts[m] {
                            most = Some(i);
                        }
                    },
                }
            }
            i = i + 1;
        }
        assert(counts@.take(ERROR_TYPE_COUNT as int) =~= counts@);
        let usage = &self.recovery_stats.strategy_usage_counts;
        let wins = &self.recovery_stats.strategy_success_counts;
        let mut best: Option<usize> = None;
        let mut k: usize = 0;
        while k < STRATEGY_COUNT
            invariant
                usage@.len() == STRATEGY_COUNT,
                wins@.len() == STRATEGY_COUNT,
                k <= STRATEGY_COUNT,
                match best {
                    None => forall|j: int| 0 <= j < k ==> #[trigger] usage@[j] == 0,
                    Some(b) => b < k && usage@[b as int] > 0 && forall|j: int| 0 <= j < k && #[trigger] usage@[j] > 0
                        ==> wins@[j] * usage@[b as int] <= wins@[b as int] * usage@[j],
                },
            decreases STRATEGY_COUNT - k,
        {
            if usage[k] > 0 {
                match best {
                    None => {
                        best = Some(k);
                    },
                    Some(b) => {
                        let wk = wins[k] as u64;
                        let ub = usage[b] as u64;
                        let wb = wins[b] as u64;
                        let uk = usage[k] as u64;
                        assert(wk * ub <= u64::MAX) by (nonlinear_arith)
                            requires wk <= u32::MAX, ub <= u32::MAX;
                        assert(wb * uk <= u64::MAX) by (nonlinear_arith)
                            requires wb <= u32::MAX, uk <= u32::MAX;
                        let lhs = wk * ub;
                        let rhs = wb * uk;
                        if lhs > rhs {
                            proof {
                                assert forall|j: int| 0 <= j < k + 1 && #[trigger] usage@[j] > 0
                                    implies wins@[j] * usage@[k as int] <= wins@[k as int] * usage@[j] by {
                                    if j < k {
                                        lemma_rate_order_trans(
                                            wins@[j] as int, usage@[j] as int,
                                            wins@[b as int] as int, usage@[b as int] as int,
                                            wins@[k as int] as int, usage@[k as int] as int,
                                        );
                                    }
                                }
                            }
                            best = Some(k);
                        } else {
                            assert(wins@[k as int] * usage@[b as int] <= wins@[b as int] * usage@[k as int]);
                        }
                    },
                }
            }
            k = k + 1;
        }
        RecoveryReport {
            config: self.config,
            stats,
            total_error_types: kinds,
            detected_patterns: self.error_history.patterns.len(),
            most_common_error: match most {
                Some(m) => Some(error_type_of_slot(m)),
                None => None,
            },
            best_performing_strategy: match best {
                Some(b) => Some(strategy_of_slot(b)),
                None => None,
            },
        }
    }
}

/// Comparing success rates by cross multiplication is transitive: if x/y <= b/c and
/// b/c < k/l (with positive uses), then x/y <= k/l.
proof fn lemma_rate_order_trans(x: int, y: int, b: int, c: int, k: int, l: int)
    requires
        y > 0,
        c > 0,
        l > 0,
        x >= 0,
        b >= 0,
        k >= 0,
        x * c <= b * y,
        b * l < k * c,
    ensures
        x * l <= k * y,
{
    assert(x * c * l <= b * y * l) by (nonlinear_arith)
        requires x * c <= b * y, l > 0;
    assert(b * l * y < k * c * y) by (nonlinear_arith)
        requires b * l < k * c, y > 0;
    assert(x * l * c <= k * y * c) by (nonlinear_arith)
        requires x * c * l <= b * y * l, b * l * y < k * c * y;
    assert(x * l <= k * y) by (nonlinear_arith)
        requires x * l * c <= k * y * c, c > 0;
}

/// One growth step never shortens a delay when the factor is at least one (1000
/// thousandths), and at least doubles it, up to `u64::MAX`, when the factor is at least two.
proof fn lemma_step_grows(d: u64, factor: u64)
    requires
        factor >= 1000,
    ensures
        spec_backoff_step(d, factor) >= d,
        factor >= 2000 && d < u64::MAX ==> spec_backoff_step(d, factor) > d || d == 0,
{
    assert((d as int) * (factor as int) >= (d as int) * 1000) by (nonlinear_arith)
        requires factor >= 1000;
    assert(((d as int) * 1000) / 1000 == d as int);
    if factor >= 2000 {
        assert((d as int) * (factor as int) >= (d as int) * 2000) by (nonlinear_arith)
            requires factor >= 2000;
        assert(((d as int) * 2000) / 1000 == 2 * (d as int));
        assert(((d as int) * (factor as int)) / 1000 >= ((d as int) * 2000) / 1000) by (nonlinear_arith)
            requires (d as int) * (factor as int) >= (d as int) * 2000;
    }
    assert(((d as int) * (factor as int)) / 1000 >= ((d as int) * 1000) / 1000) by (nonlinear_arith)
        requires (d as int) * (factor as int) >= (d as int) * 1000;
}

/// With a factor of at least one the delay never falls below the base.
proof fn lemma_chain_at_least_base(base: u64, factor: u64, k: nat)
    requires
        factor >= 1000,
    ensures
        spec_backoff_chain(base, factor, k) >= base,
    decreases k,
{
    if k > 0 {
        lemma_chain_at_least_base(base, factor, (k - 1) as nat);
        lemma_step_grows(spec_backoff_chain(base, factor, (k - 1) as nat), factor);
    }
}

/// The retry delay never shrinks from one attempt to the next when the factor is at
/// least one (1000 thousandths).
pub proof fn lemma_backoff_nondecreasing(c: SmartErrorRecoveryConfig, attempt: u32)
    requires
        c.exponential_backoff_factor >= 1000,
        attempt >= 1,
        attempt < u32::MAX,
    ensures
        spec_backoff_ms(c, attempt) <= spec_backoff_ms(c, (attempt + 1) as u32),
{
    let k = (attempt - 1) as nat;
    assert(((attempt + 1) as u32 - 1) as nat == k + 1);
    lemma_step_grows(spec_backoff_chain(c.base_retry_interval_ms, c.exponential_backoff_factor, k), c.exponential_backoff_factor);
}

/// While the delay is below its cap, each further attempt waits strictly longer when the
/// base interval is positive and the factor is at least two (2000 thousandths).
pub proof fn lemma_backoff_grows(c: SmartErrorRecoveryConfig, attempt: u32)
    requires
        c.exponential_backoff_factor >= 2000,
        c.base_retry_interval_ms > 0,
        attempt >= 1,
        attempt < u32::MAX,
        spec_backoff_ms(c, attempt) < c.max_retry_interval_ms,
    ensures
        spec_backoff_ms(c, attempt) < spec_backoff_ms(c, (attempt + 1) as u32),
{
    let k = (attempt - 1) as nat;
    assert(((attempt + 1) as u32 - 1) as nat == k + 1);
    let d = spec_backoff_chain(c.base_retry_interval_ms, c.exponential_backoff_factor, k);
    lemma_chain_at_least_base(c.base_retry_interval_ms, c.exponential_backoff_factor, k);
    lemma_step_grows(d, c.exponential_backoff_factor);
}

/// Patterns found by the analysis carry a confidence of exactly eight tenths, so the
/// pattern step of smart selection, which asks for more, never picks one of them.
pub proof fn lemma_detected_patterns_never_chosen(ps: Seq<ErrorPattern>, e: ErrorType)
    requires
        forall|i: int| 0 <= i < ps.len() ==> #[trigger] pattern_wf(ps[i]),
    ensures
        spec_pattern_choice(ps, e) is None,
    decreases ps.len(),
{
    if ps.len() > 0 {
        assert(pattern_wf(ps[0]));
        assert forall|i: int| 0 <= i < ps.drop_first().len() implies #[trigger] pattern_wf(ps.drop_first()[i]) by {
            assert(pattern_wf(ps[i + 1]));
        }
        lemma_detected_patterns_never_chosen(ps.drop_first(), e);
    }
}


/// With no strategy remembered for an error kind and no learned pattern naming it, the
/// smart choice answers each kind of error as follows: a connection error by reconnecting
/// when disconnected, retrying after a delay while connecting, and retrying at once
/// otherwise; a network timeout by exponential backoff when the network quality is below
/// one half, else by a delayed retry; authentication by re-authenticating; a subscription
/// error by resubscribing; a heartbeat timeout by reconnecting, whatever the connection
/// state; rate limits by exponential backoff; server errors by switching server; resource
/// exhaustion by clearing caches; a parsing error by an immediate retry; a configuration
/// error by resetting the configuration; a protocol error by reconnecting; and an unknown
/// error by a delayed retry.
pub proof fn lemma_smart_choice_without_memory(
    rec: SmartErrorRecovery,
    e: ErrorType,
    status: ConnectionStatus,
    quality: Option<u32>,
)
    requires
        spec_cached(rec.strategy_cache.error_to_strategy@, e) is None,
        spec_pattern_choice(rec.error_history.patterns@, e) is None,
    ensures
        ({
            let s = rec.spec_smart_choice(e, status, quality);
            &&& e == ErrorType::ConnectionError ==> s == (if status == ConnectionStatus::Disconnected {
                RecoveryStrategy::Reconnect
            } else if status == ConnectionStatus::Connecting {
                RecoveryStrategy::DelayedRetry
            } else {
                RecoveryStrategy::ImmediateRetry
            })
            &&& e == ErrorType::NetworkTimeout ==> s == (if quality matches Some(q) && q < 500 {
                RecoveryStrategy::ExponentialBackoffRetry
            } else {
                RecoveryStrategy::DelayedRetry
            })
            &&& e == ErrorType::AuthenticationError ==> s == RecoveryStrategy::Reauthenticate
            &&& e == ErrorType::SubscriptionError ==> s == RecoveryStrategy::Resubscribe
            &&& e == ErrorType::HeartbeatTimeout ==> s == RecoveryStrategy::Reconnect
            &&& e == ErrorType::RateLimitError ==> s == RecoveryStrategy::ExponentialBackoffRetry
            &&& e == ErrorType::ServerError ==> s == RecoveryStrategy::SwitchServer
            &&& e == ErrorType::ResourceExhaustion ==> s == RecoveryStrategy::ClearCache
            &&& e == ErrorType::DataParsingError ==> s == RecoveryStrategy::ImmediateRetry
            &&& e == ErrorType::ConfigurationError ==> s == RecoveryStrategy::ResetConfiguration
            &&& e == ErrorType::ProtocolError ==> s == RecoveryStrategy::Reconnect
            &&& e == ErrorType::UnknownError ==> s == RecoveryStrategy::DelayedRetry
        }),
{
}

/// Without smart selection each kind of error has a fixed strategy: reconnecting for
/// connection errors, heartbeat timeouts and protocol errors; re-authenticating for
/// authentication errors; a delayed retry for network timeouts, server errors and unknown
/// errors; an immediate retry for parsing errors; resubscribing for subscription errors;
/// exponential backoff for rate limits; resetting the configuration for configuration
/// errors; and clearing caches for resource exhaustion.
pub proof fn lemma_default_strategy_table(e: ErrorType)
    ensures
        e == ErrorType::ConnectionError ==> spec_default_strategy(e) == RecoveryStrategy::Reconnect,
        e == ErrorType::HeartbeatTimeout ==> spec_default_strategy(e) == RecoveryStrategy::Reconnect,
        e == ErrorType::ProtocolError ==> spec_default_strategy(e) == RecoveryStrategy::Reconnect,
        e == ErrorType::AuthenticationError ==> spec_default_strategy(e) == RecoveryStrategy::Reauthenticate,
        e == ErrorType::NetworkTimeout ==> spec_default_strategy(e) == RecoveryStrategy::DelayedRetry,
        e == ErrorType::ServerError ==> spec_default_strategy(e) == RecoveryStrategy::DelayedRetry,
        e == ErrorType::UnknownError ==> spec_default_strategy(e) == RecoveryStrategy::DelayedRetry,
        e == ErrorType::DataParsingError ==> spec_default_strategy(e) == RecoveryStrategy::ImmediateRetry,
        e == ErrorType::SubscriptionError ==> spec_default_strategy(e) == RecoveryStrategy::Resubscribe,
        e == ErrorType::RateLimitError ==> spec_default_strategy(e) == RecoveryStrategy::ExponentialBackoffRetry,
        e == ErrorType::ConfigurationError ==> spec_default_strategy(e) == RecoveryStrategy::ResetConfiguration,
        e == ErrorType::ResourceExhaustion ==> spec_default_strategy(e) == RecoveryStrategy::ClearCache,
{
}

/// Every strategy yields at least one action, and the plan of each is fixed: reconnecting
/// closes the connection, waits one second and opens it again; switching server closes,
/// moves to the backup endpoint and opens again; resubscribing sends the subscription of
/// the error's symbol, or clears the state when it has none; re-authenticating sends the
/// credentials; a delayed retry waits the base interval; an immediate retry waits a tenth
/// of a second; exponential backoff waits the first retry's delay, never longer than the
/// largest retry interval; waiting to recover waits one health-check interval and then
/// opens the connection; clearing caches clears the state; a restart closes, clears,
/// resets the configuration and opens; a configuration reset resets and clears; and a
/// pause announces itself and waits thirty seconds.
pub proof fn lemma_recovery_action_plans(
    strategy: RecoveryStrategy,
    symbol: Option<Seq<char>>,
    c: SmartErrorRecoveryConfig,
    now: u64,
)
    ensures
        ({
            let a = spec_recovery_actions(strategy, symbol, c, now);
            &&& a.len() >= 1
            &&& strategy == RecoveryStrategy::Reconnect ==> a == seq![
                RecoveryActionView::CloseConnection,
                RecoveryActionView::Wait(1000u128),
                RecoveryActionView::EstablishConnection,
            ]
            &&& strategy == RecoveryStrategy::SwitchServer ==> a == seq![
                RecoveryActionView::CloseConnection,
                RecoveryActionView::SwitchEndpoint("backup_endpoint"@),
                RecoveryActionView::EstablishConnection,
            ]
            &&& strategy == RecoveryStrategy::Resubscribe ==> a == (match symbol {
                Some(s) => seq![RecoveryActionView::SendSubscription(s)],
                None => seq![RecoveryActionView::ClearState],
            })
            &&& strategy == RecoveryStrategy::Reauthenticate ==> a == seq![RecoveryActionView::SendAuthentication]
            &&& strategy == RecoveryStrategy::DelayedRetry ==> a == seq![RecoveryActionView::Wait(c.base_retry_interval_ms as u128)]
            &&& strategy == RecoveryStrategy::ImmediateRetry ==> a == seq![RecoveryActionView::Wait(100u128)]
            &&& strategy == RecoveryStrategy::ExponentialBackoffRetry ==> a == seq![
                RecoveryActionView::Wait(spec_backoff_ms(c, 1) as u128),
            ] && spec_backoff_ms(c, 1) <= c.max_retry_interval_ms
            &&& strategy == RecoveryStrategy::WaitAndRecover ==> a == seq![
                RecoveryActionView::Wait((c.health_check_interval_seconds * 1000) as u128),
                RecoveryActionView::EstablishConnection,
            ]
            &&& strategy == RecoveryStrategy::ClearCache ==> a == seq![RecoveryActionView::ClearState]
            &&& strategy == RecoveryStrategy::RestartConnector ==> a == seq![
                RecoveryActionView::CloseConnection,
                RecoveryActionView::ClearState,
                RecoveryActionView::ResetConfiguration,
                RecoveryActionView::EstablishConnection,
            ]
            &&& strategy == RecoveryStrategy::ResetConfiguration ==> a == seq![
                RecoveryActionView::ResetConfiguration,
                RecoveryActionView::ClearState,
            ]
            &&& strategy == RecoveryStrategy::PauseService ==> a.len() == 2
                && a[0] is EmitSystemEvent && a[1] == RecoveryActionView::Wait(30000u128)
        }),
{
}

} // verus!
