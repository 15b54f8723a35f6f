use crossfury::sinks::file_sink::{data_file_path, FileSinkConfig, FileSinkState};
use crossfury::sinks::{SinkHealth, SinkType};
use crossfury::text::{contains_str, join_texts};
use crossfury::types::exchange::{ExchangeType, MarketType};
use crossfury::types::trading::{OrderSide, OrderStatus, OrderType, PositionSide, TimeInForce};

#[test]
fn test_api_strings_round_trip() {
    assert_eq!(OrderSide::Buy.to_api_string(), "BUY");
    assert_eq!(OrderSide::from_api_string("sell"), Some(OrderSide::Sell));
    assert_eq!(OrderType::from_api_string(OrderType::TrailingStopMarket.to_api_string()), Some(OrderType::TrailingStopMarket));
    assert_eq!(OrderStatus::from_api_string("canceled"), Some(OrderStatus::Canceled));
    assert_eq!(PositionSide::from_api_string("BOTH"), Some(PositionSide::Both));
    assert_eq!(TimeInForce::from_api_string(TimeInForce::IOC.to_api_string()), Some(TimeInForce::IOC));
    assert_eq!(OrderSide::from_api_string("HOLD"), None);
}

#[test]
fn test_exchange_market_types() {
    assert_eq!(ExchangeType::Binance.get_market_type(), MarketType::Spot);
}

#[test]
fn test_sink_types() {
    assert_eq!(SinkType::from_str("FILE").ok(), Some(SinkType::File));
    assert_eq!(SinkType::from_str("kafka").ok(), Some(SinkType::Kafka));
    assert!(SinkType::from_str("redis").is_err());
    assert_eq!(SinkType::File.as_str(), "file");
}

#[test]
fn test_file_sink_basic_operations() {
    let config = FileSinkConfig { data_dir: "/tmp".to_string(), batch_size: 2, flush_interval_ms: 1000, rotation_size_bytes: None, enable_compression: false };
    assert!(data_file_path("/tmp").starts_with("/tmp"));
    let mut sink = FileSinkState::new_at(config, 0);
    sink.push_record("{\"test\": \"data\"}");
    assert!(!sink.should_flush_at(10));
    sink.push_batch(&vec!["{\"a\":1}".to_string(), "{\"b\":2}".to_string()]);
    assert!(sink.should_flush_at(10));
    let out = sink.take_for_flush();
    assert_eq!(out.len(), 3);
    sink.finish_flush_at(out.len(), 40, 7, 20);
    let health = sink.health_report_at(true, 30);
    assert!(health.is_healthy);
    let metrics = sink.metrics_snapshot();
    assert!(metrics.records_written > 0);
    assert_eq!(metrics.flush_count, 1);
    let unhealthy = sink.health_report_at(false, 31);
    assert!(!unhealthy.is_healthy);
}

#[test]
fn test_sink_health_errors() {
    let h = SinkHealth::new().with_error("disk full");
    assert!(!h.is_healthy);
    assert_eq!(h.error_count, 1);
    assert_eq!(h.details.get("last_error").map(|s| s.as_str()), Some("disk full"));
}

#[test]
fn test_text_helpers() {
    assert!(contains_str("btcusdt@ticker", "@tick"));
    assert!(!contains_str("abc", "abcd"));
    assert!(contains_str("abc", ""));
    assert_eq!(join_texts(&vec!["a".to_string(), "b".to_string(), "c".to_string()], ", "), "a, b, c");
    assert_eq!(join_texts(&vec![], ","), "");
}

#[test]
fn test_wire_names_read_back_in_any_case() {
    for side in [OrderSide::Buy, OrderSide::Sell] {
        assert_eq!(OrderSide::from_api_string(side.to_api_string()), Some(side));
        assert_eq!(OrderSide::from_api_string(&side.to_api_string().to_lowercase()), Some(side));
    }
    assert_eq!(TimeInForce::from_api_string("gtc"), Some(TimeInForce::GTC));
    assert_eq!(SinkType::from_str("FILE").unwrap(), SinkType::File);
}
