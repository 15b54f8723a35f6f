use crossfury::connectors::common::advanced_connection::{
    AdaptiveTimeoutManager, ConnectionQualityMonitor, EmergencyPingManager, QualityReport,
};
use crossfury::types::errors::ConnectorError;

#[test]
fn test_advanced_emergency_ping_flow() {
    let mut m = EmergencyPingManager::new_at(3, 0);
    assert!(m.handle_timeout());
    assert!(m.begin_emergency_ping());
    assert!(!m.begin_emergency_ping());
    assert_eq!(m.finish_emergency_ping(10, None).unwrap(), true);
    assert!(!m.handle_timeout());
    assert!(m.handle_timeout());
    assert_eq!(m.get_timeout_count(), 3);
    assert_eq!(m.handle_pong_at(35), 25);
    assert_eq!(m.get_timeout_count(), 0);
    assert!(!m.is_emergency_ping_active());
}

#[test]
fn test_advanced_emergency_ping_failure() {
    let mut m = EmergencyPingManager::new_at(3, 0);
    assert!(m.begin_emergency_ping());
    match m.finish_emergency_ping(5, Some("closed")) {
        Err(ConnectorError::NetworkError(msg)) => assert_eq!(msg, "紧急ping失败: closed"),
        _ => panic!("expected a network error"),
    }
    assert!(!m.is_emergency_ping_active());
    assert_eq!(m.last_ping_time, 0);
}

#[test]
fn test_quality_monitor() {
    let mut q = ConnectionQualityMonitor::new_at(3, 0);
    let r = q.get_quality_report_at(1);
    assert_eq!((r.latency_us, r.packet_loss_ppm, r.stability_ppm), (0, 0, 500000));
    q.record_latency_at(100, 2);
    q.record_latency_at(100, 3);
    q.record_latency_at(100, 4);
    q.record_latency_at(100, 5);
    assert_eq!(q.latency_history.len(), 3);
    q.record_packet_success();
    q.record_packet_success();
    q.record_packet_success();
    q.record_packet_loss();
    let r = q.get_quality_report_at(6);
    assert_eq!(r.latency_us, 100_000);
    assert_eq!(r.packet_loss_ppm, 250_000);
    assert_eq!(r.stability_ppm, 700_000);
    q.reset_stats_at(7);
    assert_eq!(q.total_packets, 0);
    assert!(q.latency_history.is_empty());
}

#[test]
fn test_quality_stability_with_spread() {
    let mut q = ConnectionQualityMonitor::new_at(10, 0);
    q.record_latency_at(100, 1);
    q.record_latency_at(300, 2);
    let r = q.get_quality_report_at(3);
    assert_eq!(r.latency_us, 200_000);
    assert_eq!(r.stability_ppm, 650_000);
}

#[test]
fn test_advanced_adaptive_timeout() {
    let mut m = AdaptiveTimeoutManager::new(1000, 500, 5000, 1000);
    let good = QualityReport { latency_us: 100_000, packet_loss_ppm: 0, stability_ppm: 1_000_000, last_updated: 0 };
    m.adjust_timeout(&good);
    assert_eq!(m.get_current_timeout(), 1000);
    let bad = QualityReport { latency_us: 250_000, packet_loss_ppm: 0, stability_ppm: 500_000, last_updated: 0 };
    m.adjust_timeout(&bad);
    assert_eq!(m.get_current_timeout(), 3750);
    m.handle_timeout();
    assert_eq!(m.get_current_timeout(), 4500);
    m.handle_timeout();
    assert_eq!(m.get_current_timeout(), 5000);
    m.reset();
    assert_eq!(m.get_current_timeout(), 1000);
}
