use crossfury::connectors::common::adaptive_timeout::{AdaptiveTimeoutConfig, AdaptiveTimeoutManager};
use crossfury::connectors::traits::batch_writer::{BatchBuffer, BatchItem, BatchWriterConfig, FileBatchWriter};
use crossfury::connectors::traits::subscription_manager::{
    ConnectionStrategy, DataType as StreamData, SubscriptionConfig, SubscriptionEvent, SubscriptionManager, SubscriptionManagerConfig,
    SubscriptionPriority,
};
use crossfury::connectors::traits::websocket_manager::{
    ConnectionStrategy as WsStrategy, ConnectionStrategySelector, StreamMap, StreamType,
};

#[test]
fn test_adaptive_timeout_manager_creation() {
    let manager = AdaptiveTimeoutManager::with_default_config();
    assert_eq!(manager.get_current_timeout(), 5000);
}

#[test]
fn test_record_latency() {
    let mut manager = AdaptiveTimeoutManager::with_default_config();
    manager.record_latency(50);
    manager.record_latency(100);
    manager.record_latency(75);
    let metrics = manager.get_network_metrics();
    assert!((metrics.avg_latency_us as i64 - 75_000).abs() < 1_000);
    assert!(metrics.quality_score_ppm > 500_000);
}

#[test]
fn test_record_timeout() {
    let mut manager = AdaptiveTimeoutManager::with_default_config();
    let initial_timeout = manager.get_current_timeout();
    manager.record_timeout();
    assert!(manager.get_current_timeout() > initial_timeout);
}

#[test]
fn test_network_quality_calculation() {
    let mut manager = AdaptiveTimeoutManager::with_default_config();
    for _ in 0..10 {
        manager.record_latency(20);
    }
    manager.record_packet_loss(0);
    let metrics = manager.get_network_metrics();
    assert!(metrics.quality_score_ppm > 800_000);
    assert_eq!(metrics.avg_latency_us, 20_000);
    assert_eq!(metrics.packet_loss_ppm, 0);
}

#[test]
fn test_timeout_adjustment() {
    let config = AdaptiveTimeoutConfig { evaluation_interval_ms: 100, base_timeout_ms: 5000, max_timeout_ms: 15000, ..Default::default() };
    let mut manager = AdaptiveTimeoutManager::new(config);
    for _ in 0..10 {
        manager.record_latency(2000);
    }
    manager.record_packet_loss(100_000);
    let result = manager.evaluate_and_adjust_at(1_000_000);
    assert!(result.is_some());
    assert!(manager.get_current_timeout() > 5000);
    let metrics = manager.get_network_metrics();
    assert!(metrics.avg_latency_us >= 2_000_000);
    assert!(metrics.quality_score_ppm < 600_000);
    assert!(manager.evaluate_and_adjust_at(1_000_050).is_none());
}

#[test]
fn test_reset() {
    let mut manager = AdaptiveTimeoutManager::with_default_config();
    manager.record_timeout();
    manager.record_latency(1000);
    manager.reset();
    assert_eq!(manager.get_current_timeout(), 5000);
    let status = manager.get_status_summary();
    assert_eq!(status.consecutive_timeouts, 0);
    assert_eq!(status.sample_count, 0);
}

fn ticker(symbols: &[&str], types: Vec<StreamData>) -> SubscriptionConfig {
    SubscriptionConfig {
        symbols: symbols.iter().map(|s| s.to_string()).collect(),
        data_types: types,
        batch_size: None,
        priority: SubscriptionPriority::Medium,
    }
}

#[test]
fn test_subscription_idempotency() {
    let mut manager = SubscriptionManager::new(SubscriptionManagerConfig::default(), ConnectionStrategy::SingleConnection);
    let sub = ticker(&["BTCUSDT"], vec![StreamData::Ticker]);
    assert!(manager.subscribe_at(&sub, 1).is_ok());
    assert!(manager.subscribe_at(&sub, 2).is_ok());
    assert_eq!(manager.get_subscriptions().len(), 1);
}

#[test]
fn test_incremental_subscription() {
    let mut manager = SubscriptionManager::new(SubscriptionManagerConfig::default(), ConnectionStrategy::SingleConnection);
    assert!(manager.subscribe_at(&ticker(&["BTCUSDT"], vec![StreamData::Ticker]), 1).is_ok());
    assert!(manager.subscribe_at(&ticker(&["ETHUSDT"], vec![StreamData::Ticker]), 2).is_ok());
    assert_eq!(manager.get_subscriptions().len(), 2);
}

#[test]
fn test_connection_strategy() {
    let mut manager = SubscriptionManager::new(SubscriptionManagerConfig::default(), ConnectionStrategy::GroupByDataType);
    let sub = ticker(&["BTCUSDT"], vec![StreamData::Ticker, StreamData::OrderBook]);
    assert!(manager.subscribe_at(&sub, 1).is_ok());
    assert!(manager.get_connections().len() >= 1);
}

#[test]
fn test_unsubscribe_cleans_up_connection() {
    let mut manager = SubscriptionManager::new(SubscriptionManagerConfig::default(), ConnectionStrategy::SingleConnection);
    let sub = ticker(&["BTCUSDT"], vec![StreamData::Ticker]);
    manager.subscribe_at(&sub, 1).unwrap();
    assert_eq!(manager.get_connections().len(), 1);
    let events = manager.unsubscribe_at(&sub, 2);
    assert_eq!(manager.get_subscriptions().len(), 0);
    assert_eq!(manager.get_connections().len(), 0);
    assert!(events.iter().any(|e| matches!(e, SubscriptionEvent::SubscriptionRemoved { symbol, timestamp: 2, .. } if symbol == "BTCUSDT")));
    assert!(events.iter().any(|e| matches!(e, SubscriptionEvent::ConnectionLost { timestamp: 2, .. })));
}

#[test]
fn test_unsubscribe_keeps_connection_with_other_streams() {
    let mut manager = SubscriptionManager::new(SubscriptionManagerConfig::default(), ConnectionStrategy::SingleConnection);
    manager.subscribe_at(&ticker(&["BTCUSDT", "ETHUSDT"], vec![StreamData::Ticker]), 1).unwrap();
    let events = manager.unsubscribe_at(&ticker(&["BTCUSDT"], vec![StreamData::Ticker]), 2);
    assert_eq!(manager.get_subscriptions().len(), 1);
    assert_eq!(manager.get_connections().len(), 1);
    assert_eq!(events.len(), 1);
}

#[test]
fn test_batch_processor() {
    let config = BatchWriterConfig { batch_size: 3, flush_interval_ms: 100, max_buffer_size: 100, write_timeout_ms: 1000 };
    let writer = FileBatchWriter::new("test_batch.jsonl".to_string(), "test_writer".to_string());
    assert_eq!(writer.name(), "test_writer");
    let mut buffer: BatchBuffer<u64> = BatchBuffer::new();
    let mut written = Vec::new();
    for i in 0..5u64 {
        if let Some(batch) = buffer.push_item(BatchItem::new_at(i, 10 + i), config.batch_size) {
            written.push(batch.into_iter().map(|b| b.data).collect::<Vec<_>>());
        }
    }
    assert_eq!(written, vec![vec![0, 1, 2]]);
    assert_eq!(buffer.len(), 2);
    let rest: Vec<u64> = buffer.drain_all().into_iter().map(|b| b.data).collect();
    assert_eq!(rest, vec![3, 4]);
    assert_eq!(buffer.len(), 0);
}

#[test]
fn test_strategy_selection_for_streams() {
    assert_eq!(ConnectionStrategySelector::select_strategy(&vec![StreamType::Trade], 0, 10), WsStrategy::Multiplexed);
    assert_eq!(ConnectionStrategySelector::select_strategy(&vec![StreamType::Trade, StreamType::UserData], 0, 10), WsStrategy::Independent);
    assert_eq!(ConnectionStrategySelector::select_strategy(&vec![StreamType::Trade, StreamType::Kline], 0, 10), WsStrategy::Hybrid);
    assert_eq!(ConnectionStrategySelector::select_strategy(&vec![StreamType::Trade, StreamType::Kline], 8, 10), WsStrategy::Multiplexed);
    let mut existing = StreamMap::new();
    assert!(ConnectionStrategySelector::should_create_new_connection(StreamType::Trade, WsStrategy::Multiplexed, &existing));
    existing.insert(StreamType::Trade, "c1".to_string());
    assert!(!ConnectionStrategySelector::should_create_new_connection(StreamType::Kline, WsStrategy::Multiplexed, &existing));
    assert!(ConnectionStrategySelector::should_create_new_connection(StreamType::Kline, WsStrategy::Independent, &existing));
    assert!(ConnectionStrategySelector::should_create_new_connection(StreamType::UserData, WsStrategy::Hybrid, &existing));
}

#[test]
fn test_extreme_samples_and_settings_are_handled() {
    let config = AdaptiveTimeoutConfig {
        base_timeout_ms: u64::MAX,
        min_timeout_ms: 1000,
        max_timeout_ms: u64::MAX,
        ..AdaptiveTimeoutConfig::default()
    };
    let mut manager = AdaptiveTimeoutManager::new(config);
    manager.record_latency(u64::MAX);
    let metrics = manager.get_network_metrics();
    assert_eq!(metrics.avg_latency_us, 0xFF_FFFF_FFFF * 1000);
    assert_eq!(metrics.latency_std_dev_us, 0);
    assert_eq!(metrics.recommended_timeout_ms, u64::MAX);
    manager.set_timeout(u64::MAX);
    manager.record_timeout();
    assert_eq!(manager.get_current_timeout(), u64::MAX);
}
