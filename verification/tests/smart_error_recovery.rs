use crossfury::connectors::common::smart_error_recovery::{
    ErrorContext, ErrorRecord, ErrorSeverity, ErrorType, RecoveryStrategy, SmartErrorRecovery, SmartErrorRecoveryConfig,
};
use crossfury::str_map::StrMap;
use crossfury::types::config::ConnectionStatus;

fn context(status: ConnectionStatus) -> ErrorContext {
    ErrorContext {
        exchange: "binance".to_string(),
        symbol: Some("BTCUSDT".to_string()),
        connection_status: status,
        network_quality: Some(800),
        system_load: Some(500),
        additional_info: StrMap::new(),
    }
}

#[test]
fn test_smart_error_recovery_creation() {
    let recovery = SmartErrorRecovery::with_default_config();
    let stats = recovery.get_recovery_stats();
    assert_eq!(stats.total_errors, 0);
    assert_eq!(stats.successful_recoveries, 0);
    assert_eq!(stats.failed_recoveries, 0);
}

#[test]
fn test_record_error() {
    let mut recovery = SmartErrorRecovery::with_default_config();
    recovery.record_error(ErrorType::ConnectionError, "连接超时".to_string(), ErrorSeverity::High, context(ConnectionStatus::Connected));
    let stats = recovery.get_recovery_stats();
    assert_eq!(stats.total_errors, 1);
    let history = recovery.get_error_history();
    assert_eq!(history.len(), 1);
    assert_eq!(history[0].error_type, ErrorType::ConnectionError);
}

#[test]
fn test_strategy_selection() {
    let recovery = SmartErrorRecovery::with_default_config();
    let ctx = context(ConnectionStatus::Disconnected);
    assert_eq!(recovery.select_recovery_strategy(ErrorType::ConnectionError, &ctx), RecoveryStrategy::Reconnect);
    assert_eq!(recovery.select_recovery_strategy(ErrorType::AuthenticationError, &ctx), RecoveryStrategy::Reauthenticate);
    assert_eq!(recovery.select_recovery_strategy(ErrorType::RateLimitError, &ctx), RecoveryStrategy::ExponentialBackoffRetry);
}

#[test]
fn test_exponential_backoff() {
    let recovery = SmartErrorRecovery::with_default_config();
    let delay1 = recovery.calculate_exponential_backoff_delay(1);
    let delay2 = recovery.calculate_exponential_backoff_delay(2);
    let delay3 = recovery.calculate_exponential_backoff_delay(3);
    assert!(delay2 > delay1);
    assert!(delay3 > delay2);
}

#[test]
fn test_recovery_execution() {
    let mut recovery = SmartErrorRecovery::with_default_config();
    let mut error_record = ErrorRecord {
        error_type: ErrorType::ConnectionError,
        error_message: "测试错误".to_string(),
        timestamp: 0,
        severity: ErrorSeverity::Medium,
        context: context(ConnectionStatus::Connected),
        recovery_attempts: Vec::new(),
    };
    let actions = recovery.generate_recovery_actions(RecoveryStrategy::ImmediateRetry, &error_record.context);
    let result = recovery.complete_recovery(RecoveryStrategy::ImmediateRetry, &mut error_record, actions, true, 1_000, 1_040);
    assert!(result.success);
    assert_eq!(result.strategy, RecoveryStrategy::ImmediateRetry);
    assert_eq!(result.retry_count, 1);
    assert_eq!(result.recovery_time_ms, 40);
    assert_eq!(error_record.recovery_attempts.len(), 1);
    assert_eq!(recovery.get_recovery_stats().successful_recoveries, 1);
}

#[test]
fn smart_error_recovery_test_generate_report() {
    let mut recovery = SmartErrorRecovery::with_default_config();
    recovery.record_error(ErrorType::ConnectionError, "测试错误".to_string(), ErrorSeverity::Medium, context(ConnectionStatus::Connected));
    let report = recovery.generate_recovery_report();
    assert_eq!(report.stats.total_errors, 1);
    assert_eq!(report.total_error_types, 1);
    assert_eq!(report.most_common_error, Some(ErrorType::ConnectionError));
}

#[test]
fn test_backoff_values_with_fractional_factor() {
    let doubling = SmartErrorRecovery::with_default_config();
    assert_eq!(doubling.calculate_exponential_backoff_delay(1), 1000);
    assert_eq!(doubling.calculate_exponential_backoff_delay(2), 2000);
    assert_eq!(doubling.calculate_exponential_backoff_delay(3), 4000);
    assert_eq!(doubling.calculate_exponential_backoff_delay(10), 30000);
    let config = SmartErrorRecoveryConfig { exponential_backoff_factor: 1500, ..SmartErrorRecoveryConfig::default() };
    let slower = SmartErrorRecovery::new(config);
    assert_eq!(slower.calculate_exponential_backoff_delay(1), 1000);
    assert_eq!(slower.calculate_exponential_backoff_delay(2), 1500);
    assert_eq!(slower.calculate_exponential_backoff_delay(3), 2250);
    assert_eq!(slower.calculate_exponential_backoff_delay(5), 5062);
}

#[test]
fn test_wait_and_recover_with_any_interval() {
    let config = SmartErrorRecoveryConfig { health_check_interval_seconds: u64::MAX, ..SmartErrorRecoveryConfig::default() };
    let recovery = SmartErrorRecovery::new(config);
    let ctx = context(ConnectionStatus::Connected);
    let actions = recovery.generate_recovery_actions(RecoveryStrategy::WaitAndRecover, &ctx);
    assert_eq!(actions.len(), 2);
    assert!(matches!(actions[0], crossfury::connectors::common::smart_error_recovery::RecoveryAction::Wait(ms) if ms == (u64::MAX as u128) * 1000));
    assert!(matches!(actions[1], crossfury::connectors::common::smart_error_recovery::RecoveryAction::EstablishConnection));
}
