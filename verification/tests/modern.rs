use crossfury::connectors::managers::modern_manager::{registration_event, unregistration_event, ManagerError};
use crossfury::connectors::traits::modern::{
    summarize_config_batch, BatchIOConfig, BoundedChannelConfig, ChannelOverflowStrategy, ConnectionEvent,
    ConnectorFeature, ConnectorMetrics, ModernConnectionStatus, ReconnectStrategy,
};
use crossfury::connectors::traits::modern_binance::{
    connection_system_event, route_stream, subscription_system_event, BinanceConfigError, ModernBinanceConfig,
    ModernBinanceCore, ModernBinanceError, StreamRoute,
};
use crossfury::connectors::traits::subscription_manager::{DataType, SubscriptionConfig, SubscriptionPriority};
use crossfury::connectors::traits::summarize_symbol_batch;
use crossfury::types::common::{ExchangeType, MarketType};
use crossfury::types::errors::ConnectorError;
use crossfury::types::events::SystemEvent;

fn sub(symbols: &[&str]) -> SubscriptionConfig {
    SubscriptionConfig {
        symbols: symbols.iter().map(|s| s.to_string()).collect(),
        data_types: vec![DataType::OrderBook],
        batch_size: None,
        priority: SubscriptionPriority::Medium,
    }
}

#[test]
fn test_defaults() {
    let b = BatchIOConfig::default();
    assert_eq!((b.batch_size, b.batch_timeout_ms, b.max_buffer_size, b.enable_compression), (100, 1000, 10000, false));
    let c = BoundedChannelConfig::default();
    assert_eq!(c.market_data_buffer_size, 1000);
    assert_eq!(c.user_data_buffer_size, 500);
    assert_eq!(c.overflow_strategy, ChannelOverflowStrategy::DropOldest);
    let m = ConnectorMetrics::default();
    assert_eq!(m.messages_received, 0);
    assert!(m.last_error.is_none());
}

#[test]
fn test_summarize_config_batch() {
    let configs = vec![sub(&["BTCUSDT", "ETHUSDT"]), sub(&["XRPUSDT"]), sub(&["ADAUSDT", "DOTUSDT"])];
    let outcomes = vec![None, Some("boom".to_string()), None];
    let r = summarize_config_batch(&configs, &outcomes);
    assert_eq!(r.total_requested, 5);
    assert_eq!(r.successful, 4);
    assert_eq!(r.failed, 1);
    assert_eq!(r.failed_symbols, vec![("XRPUSDT".to_string(), "boom".to_string())]);
    assert_eq!(r.pending, 0);
}

#[test]
fn test_summarize_symbol_batch() {
    let symbols = vec!["A".to_string(), "B".to_string(), "C".to_string()];
    let outcomes = vec![Some("x".to_string()), None, Some("y".to_string())];
    let r = summarize_symbol_batch(&symbols, &outcomes);
    assert_eq!(r.total_requested, 3);
    assert_eq!(r.successful, 1);
    assert_eq!(r.failed, 2);
    assert_eq!(r.failed_symbols[1], ("C".to_string(), "y".to_string()));
}

#[test]
fn test_binance_config_validation() {
    let c = ModernBinanceConfig::default();
    assert!(c.validate().is_ok());
    assert_eq!(c.connection_timeout_ms(), 30000);
    let mut bad = ModernBinanceConfig::default();
    bad.websocket_url = "http://x".to_string();
    assert_eq!(bad.validate().unwrap_err().message(), "无效的WebSocket URL: http://x");
    let mut bad = ModernBinanceConfig::default();
    bad.rest_api_url = "ftp://x".to_string();
    assert!(matches!(bad.validate(), Err(BinanceConfigError::InvalidRestApiUrl(_))));
    let mut bad = ModernBinanceConfig::default();
    bad.reconnect_interval_ms = 0;
    assert!(matches!(bad.validate(), Err(BinanceConfigError::InvalidReconnectInterval)));
    let mut bad = ModernBinanceConfig::default();
    bad.batch_size = 0;
    assert_eq!(bad.validate().unwrap_err().message(), "批量大小必须大于0");
}

#[test]
fn test_binance_errors() {
    let e: ModernBinanceError = ConnectorError::NetworkError("down".to_string()).into();
    assert!(e.message().starts_with("连接器错误: "));
    assert_eq!(ModernBinanceError::NotInitialized.message(), "未初始化");
    let e: ModernBinanceError = BinanceConfigError::InvalidConnectionTimeout.into();
    assert_eq!(e.message(), "配置错误: 连接超时必须大于0");
}

#[test]
fn test_binance_core() {
    let mut core = ModernBinanceCore::new();
    assert_eq!(core.name(), "modern_binance_spot");
    assert_eq!(core.version(), "2.0.0");
    assert_eq!(core.exchange_type(), ExchangeType::Binance);
    assert_eq!(core.market_type(), MarketType::Spot);
    assert_eq!(core.supported_features().len(), 8);
    assert!(core.supported_features().contains(&ConnectorFeature::Compression));
    assert!(!core.supported_features().contains(&ConnectorFeature::FuturesTrading));
    assert_eq!(core.update_status(ModernConnectionStatus::Connecting { attempt: 0, started_at: 1 }), None);
    assert_eq!(core.update_status(ModernConnectionStatus::Connected { connected_at: 2, last_heartbeat: 2 }), Some(ConnectionEvent::Connected));
    assert!(core.is_healthy());
    let failed = ModernConnectionStatus::Failed { error: "e".to_string(), failed_at: 3, retry_after: None };
    assert_eq!(core.update_status(failed), Some(ConnectionEvent::Failed("e".to_string())));
    core.metrics.error_count = 11;
    core.metrics.avg_latency_us = 1_234_567;
    let h = core.health_check_at(9);
    assert!(!h.healthy);
    assert_eq!(h.connection_status, "Failed");
    assert_eq!(h.warnings, vec!["错误计数较高: 11".to_string(), "延迟较高: 1234.57ms".to_string()]);
    assert_eq!(h.errors, vec!["连接器未连接".to_string()]);
    let s = ReconnectStrategy::FixedInterval { interval_ms: 10, max_attempts: None };
    let core = core.with_reconnect_strategy(s.clone());
    assert_eq!(core.reconnect_strategy, s);
}

#[test]
fn test_binance_update_config() {
    let mut core = ModernBinanceCore::new();
    let mut c = ModernBinanceConfig::default();
    c.batch_size = 20;
    assert_eq!(core.update_config(c).ok(), Some(false));
    assert_eq!(core.config.batch_size, 20);
    let mut bad = ModernBinanceConfig::default();
    bad.connection_timeout_ms = 0;
    assert!(core.update_config(bad).is_err());
    assert_eq!(core.config.batch_size, 20);
}

#[test]
fn test_stream_routing_and_events() {
    assert_eq!(route_stream("btcusdt@ticker"), StreamRoute::Ticker);
    assert_eq!(route_stream("abc@userData"), StreamRoute::UserData);
    assert_eq!(route_stream("btcusdt@depth"), StreamRoute::Ignored);
    match connection_system_event("market_data", true) {
        SystemEvent::ConnectorConnected { connector_id, exchange, market_type } => {
            assert_eq!(connector_id, "market_data");
            assert_eq!(exchange, ExchangeType::Binance);
            assert_eq!(market_type, MarketType::Spot);
        },
        _ => panic!("expected a connection event"),
    }
    assert!(matches!(connection_system_event("x", false), SystemEvent::ConnectorDisconnected { .. }));
    let symbols = vec!["BTCUSDT".to_string(), "ETHUSDT".to_string()];
    match subscription_system_event(&symbols, true, 7) {
        SystemEvent::Subscription { symbol, subscribed, timestamp, .. } => {
            assert_eq!(symbol, "BTCUSDT,ETHUSDT");
            assert!(subscribed);
            assert_eq!(timestamp, 7);
        },
        _ => panic!("expected a subscription event"),
    }
}

#[test]
fn test_binance_connection_quality() {
    let mut core = ModernBinanceCore::new();
    let q = core.connection_quality_at(7);
    assert_eq!((q.latency_us, q.packet_loss_ppm, q.stability_ppm, q.last_updated), (1_000_000, 1_000_000, 0, 7));
    core.update_status(ModernConnectionStatus::Connected { connected_at: 1, last_heartbeat: 1 });
    core.metrics.avg_latency_us = 42_000;
    let q = core.connection_quality_at(9);
    assert_eq!((q.latency_us, q.packet_loss_ppm, q.stability_ppm, q.last_updated), (42_000, 0, 1_000_000, 9));
    core.metrics.reconnect_count = 2;
    assert_eq!(core.connection_quality_at(9).stability_ppm, 800_000);
}

#[test]
fn test_registration_reports_connected_only_on_success() {
    assert_eq!(registration_event(&Ok(())), Some(ConnectionEvent::Connected));
    let refused: Result<(), ManagerError> = Err(ManagerError::ConnectorAlreadyExists { id: "test".to_string() });
    assert_eq!(registration_event(&refused), None);
    assert_eq!(unregistration_event(&Ok(())), Some(ConnectionEvent::Disconnected));
    assert_eq!(unregistration_event(&refused), None);
}
