use crossfury::connectors::lbank::{
    emergency_ping_answer, lbank_place_order, market_data_plan, missing_orderbook, LBankCore,
};
use crossfury::network::{
    binance_depth_stream, bybit_orderbook_topic, bybit_topic_symbol, classify_binance_futures, classify_bybit_futures,
    classify_okx_futures, connection_health_tick, FeedMessage,
};
use crossfury::types::common::DataType;
use crossfury::types::config::{ConnectionQuality, ConnectionQualityLevel, ConnectionStatus};
use crossfury::types::errors::ConnectorError;

#[test]
fn test_feed_names_and_messages() {
    assert_eq!(binance_depth_stream("BTCUSDT"), "btcusdt@depth20@100ms");
    assert_eq!(bybit_orderbook_topic("ETHUSDT"), "orderbook.20.ETHUSDT");
    assert_eq!(bybit_topic_symbol("orderbook.20.ETHUSDT"), "ETHUSDT");
    assert_eq!(classify_binance_futures(true, Some("x@depth20")), FeedMessage::SubscriptionReply);
    assert_eq!(classify_binance_futures(false, Some("btcusdt@depth20@100ms")), FeedMessage::DepthUpdate);
    assert_eq!(classify_binance_futures(false, Some("btcusdt@trade")), FeedMessage::Other);
    assert_eq!(classify_bybit_futures(Some("orderbook.20.BTCUSDT")), FeedMessage::DepthUpdate);
    assert_eq!(classify_bybit_futures(Some("tickers.BTCUSDT")), FeedMessage::Other);
    assert_eq!(classify_okx_futures(Some("subscribe"), false), FeedMessage::SubscriptionReply);
    assert_eq!(classify_okx_futures(Some("error"), false), FeedMessage::ExchangeError);
    assert_eq!(classify_okx_futures(None, true), FeedMessage::DepthUpdate);
}

#[test]
fn test_health_tick() {
    let conns = vec![("a".to_string(), 100), ("b".to_string(), 40_000), ("c".to_string(), 20_000)];
    let t = connection_health_tick(10, &conns, 15_000, 30_000, 12);
    assert!(!t.global_alert);
    assert!(!t.reconnect_all);
    assert!(t.log_stats);
    assert_eq!(t.reconnect, vec!["b".to_string()]);
    let t = connection_health_tick(31_000, &conns, 15_000, 30_000, 5);
    assert!(t.global_alert && t.reconnect_all && !t.log_stats);
    assert_eq!(t.reconnect.len(), 3);
}

#[test]
fn test_quality_levels() {
    let q = ConnectionQuality::default_at(0);
    assert_eq!(q.assess_quality(), ConnectionQualityLevel::Excellent);
    let q = ConnectionQuality { latency_us: 600_000, packet_loss_ppm: 0, stability_ppm: 950_000, last_updated: 0 };
    assert_eq!(q.assess_quality(), ConnectionQualityLevel::Fair);
    let q = ConnectionQuality { latency_us: 0, packet_loss_ppm: 200_000, stability_ppm: 950_000, last_updated: 0 };
    assert!(q.is_poor());
}

#[test]
fn test_lbank_decisions() {
    let mut core = LBankCore::new();
    assert_eq!(core.get_exchange_name(), "LBank");
    assert_eq!(core.get_connection_status(), ConnectionStatus::Disconnected);
    assert!(core.check_subscribe_orderbook().is_err());
    assert_eq!(core.get_connection_quality_at(3).assess_quality(), ConnectionQualityLevel::Poor);
    core.connect();
    assert!(core.check_subscribe_orderbook().is_ok());
    let q = core.get_connection_quality_at(4);
    assert_eq!((q.latency_us, q.stability_ppm, q.last_updated), (60_000, 850_000, 4));
    assert_eq!(q.assess_quality(), ConnectionQualityLevel::Good);
    core.disconnect();
    assert_eq!(core.get_connection_status(), ConnectionStatus::Disconnected);
    assert_eq!(emergency_ping_answer(true, true).unwrap(), 60);
    assert!(matches!(emergency_ping_answer(true, false), Err(ConnectorError::ConnectionLost(_))));
    assert_eq!(emergency_ping_answer(false, false).unwrap(), 120);
    assert!(matches!(lbank_place_order(), ConnectorError::OrderPlacementFailed(_)));
    match missing_orderbook("BTCUSDT") {
        ConnectorError::InvalidResponse(m) => assert_eq!(m, "No orderbook data available for BTCUSDT"),
        _ => panic!("expected an invalid response"),
    }
    let plan = market_data_plan(
        &vec!["BTCUSDT".to_string(), "ETHUSDT".to_string()],
        &vec![DataType::OrderBook, DataType::Kline, DataType::Trade],
    );
    assert_eq!(plan, vec![
        ("BTCUSDT".to_string(), DataType::OrderBook),
        ("BTCUSDT".to_string(), DataType::Trade),
        ("ETHUSDT".to_string(), DataType::OrderBook),
        ("ETHUSDT".to_string(), DataType::Trade),
    ]);
}
