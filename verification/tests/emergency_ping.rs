use crossfury::connectors::common::emergency_ping::{EmergencyPingConfig, EmergencyPingManager, EmergencyPingResult};

#[test]
fn test_emergency_ping_manager_creation() {
    let manager = EmergencyPingManager::with_default_config();
    let status = manager.get_status();
    assert!(!status.is_emergency_pinging);
    assert_eq!(status.retry_count, 0);
    assert_eq!(status.consecutive_failures, 0);
}

#[test]
fn test_should_send_emergency_ping() {
    let config = EmergencyPingConfig { trigger_threshold_ms: 100, ..Default::default() };
    let mut manager = EmergencyPingManager::new(config);
    assert!(manager.should_send_emergency_ping_at(1_000));
    manager.state.last_pong_time = Some(1_000);
    assert!(!manager.should_send_emergency_ping_at(1_000));
    assert!(manager.should_send_emergency_ping_at(1_150));
}

#[test]
fn test_emergency_ping_flow() {
    let mut manager = EmergencyPingManager::with_default_config();
    assert!(manager.start_emergency_ping_at(100).is_ok());
    let status = manager.get_status();
    assert!(status.is_emergency_pinging);
    assert_eq!(status.retry_count, 1);
    let result = manager.handle_emergency_pong_at(130);
    assert!(matches!(result, EmergencyPingResult::Success(30)));
    let status = manager.get_status();
    assert!(!status.is_emergency_pinging);
    assert_eq!(status.retry_count, 0);
}

#[test]
fn test_emergency_ping_timeout() {
    let mut manager = EmergencyPingManager::with_default_config();
    assert!(manager.start_emergency_ping().is_ok());
    let result = manager.handle_emergency_timeout();
    assert!(matches!(result, EmergencyPingResult::Timeout));
    let status = manager.get_status();
    assert!(!status.is_emergency_pinging);
    assert_eq!(status.consecutive_failures, 1);
}

#[test]
fn test_max_retries() {
    let config = EmergencyPingConfig { max_retries: 2, ..Default::default() };
    let mut manager = EmergencyPingManager::new(config);
    assert!(manager.start_emergency_ping().is_ok());
    assert!(matches!(manager.handle_emergency_timeout(), EmergencyPingResult::Timeout));
    assert!(manager.start_emergency_ping().is_ok());
    assert!(matches!(manager.handle_emergency_timeout(), EmergencyPingResult::MaxRetriesExceeded));
    assert!(manager.start_emergency_ping().is_ok());
}

#[test]
fn test_emergency_ping_refusals() {
    let mut manager = EmergencyPingManager::with_default_config();
    assert!(manager.start_emergency_ping_at(5).is_ok());
    assert!(manager.start_emergency_ping_at(6).is_err());
    let mut idle = EmergencyPingManager::with_default_config();
    assert!(matches!(idle.handle_emergency_pong_at(7), EmergencyPingResult::Failed(_)));
    let disabled = EmergencyPingManager::new(EmergencyPingConfig { enabled: false, ..Default::default() });
    assert!(!disabled.should_send_emergency_ping_at(1_000_000));
}
