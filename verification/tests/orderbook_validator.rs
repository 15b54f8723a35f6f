use crossfury::connectors::common::orderbook_validator::{
    calculate_orderbook_stats, OrderBookLevel, OrderBookSnapshot, OrderbookValidator, OrderbookValidatorConfig,
    ValidationErrorType, ValidationTiming, ValidationWarningType,
};
use crossfury::decimal::{dec_compare, Dec};

fn level(price: i128, quantity: i128) -> OrderBookLevel {
    OrderBookLevel { price: Dec { mantissa: price, scale: 0 }, quantity: Dec { mantissa: quantity, scale: 0 } }
}

fn now_ms() -> i64 {
    std::time::SystemTime::now().duration_since(std::time::UNIX_EPOCH).unwrap().as_millis() as i64
}

fn create_test_orderbook() -> OrderBookSnapshot {
    OrderBookSnapshot {
        symbol: "BTCUSDT".to_string(),
        bids: vec![level(50000, 1), level(49999, 2), level(49998, 3)],
        asks: vec![level(50001, 1), level(50002, 2), level(50003, 3)],
        timestamp: now_ms(),
    }
}

fn empty_orderbook() -> OrderBookSnapshot {
    OrderBookSnapshot { symbol: "BTCUSDT".to_string(), bids: vec![], asks: vec![], timestamp: 0 }
}

fn quick_timing() -> ValidationTiming {
    ValidationTiming { after_basic_ns: 0, before_quantities_ns: 0, before_spread_ns: 0, total_ns: 0 }
}

#[test]
fn test_validator_creation() {
    let validator = OrderbookValidator::with_default_config();
    let stats = validator.get_stats();
    assert_eq!(stats.total_validations, 0);
    assert_eq!(stats.successful_validations, 0);
    assert_eq!(stats.failed_validations, 0);
}

#[test]
fn test_valid_orderbook() {
    let mut validator = OrderbookValidator::with_default_config();
    let orderbook = create_test_orderbook();
    let result = validator.validate_orderbook(&orderbook);
    assert!(result.is_valid);
    assert!(result.errors.is_empty());
    assert_eq!(result.orderbook_stats.bid_levels, 3);
    assert_eq!(result.orderbook_stats.ask_levels, 3);
}

#[test]
fn test_empty_orderbook() {
    let mut validator = OrderbookValidator::with_default_config();
    let result = validator.validate_orderbook(&empty_orderbook());
    assert!(!result.is_valid);
    assert!(!result.errors.is_empty());
    assert_eq!(result.errors[0].error_type, ValidationErrorType::EmptyOrderbook);
}

#[test]
fn test_price_ordering_error() {
    let mut validator = OrderbookValidator::with_default_config();
    let mut orderbook = create_test_orderbook();
    orderbook.bids[1].price = Dec { mantissa: 50001, scale: 0 };
    let result = validator.validate_orderbook(&orderbook);
    assert!(!result.is_valid);
    assert!(result.errors.iter().any(|e| e.error_type == ValidationErrorType::PriceOrdering));
}

#[test]
fn test_price_cross_error() {
    let mut validator = OrderbookValidator::with_default_config();
    let mut orderbook = create_test_orderbook();
    orderbook.bids[0].price = Dec { mantissa: 50002, scale: 0 };
    let result = validator.validate_orderbook(&orderbook);
    assert!(!result.is_valid);
    assert!(result.errors.iter().any(|e| e.error_type == ValidationErrorType::PriceRange));
}

#[test]
fn test_quick_validate() {
    let mut validator = OrderbookValidator::with_default_config();
    let orderbook = create_test_orderbook();
    assert!(validator.quick_validate(&orderbook));
    assert!(!validator.quick_validate(&empty_orderbook()));
}

#[test]
fn test_statistics_update() {
    let mut validator = OrderbookValidator::with_default_config();
    let orderbook = create_test_orderbook();
    let result1 = validator.validate_orderbook(&orderbook);
    assert!(result1.is_valid);
    let stats = validator.get_stats();
    assert_eq!(stats.total_validations, 1);
    assert_eq!(stats.successful_validations, 1);
    assert_eq!(stats.failed_validations, 0);

    let result2 = validator.validate_orderbook(&empty_orderbook());
    assert!(!result2.is_valid);
    let stats = validator.get_stats();
    assert_eq!(stats.total_validations, 2);
    assert_eq!(stats.successful_validations, 1);
    assert_eq!(stats.failed_validations, 1);
}

#[test]
fn orderbook_validator_test_generate_report() {
    let mut validator = OrderbookValidator::with_default_config();
    let orderbook = create_test_orderbook();
    validator.validate_orderbook(&orderbook);
    let report = validator.generate_report();
    assert_eq!(report.success_rate_ppm, 1_000_000);
    assert_eq!(report.stats.total_validations, 1);
}

#[test]
fn test_messages_and_warnings_at_fixed_time() {
    let mut validator = OrderbookValidator::with_default_config();
    let mut book = create_test_orderbook();
    book.timestamp = 1_000;
    let result = validator.validate_orderbook_at(&book, 10_000, quick_timing());
    assert!(result.is_valid);
    assert_eq!(result.warnings.len(), 2);
    assert_eq!(result.warnings[0].warning_type, ValidationWarningType::FewLevels);
    assert_eq!(result.warnings[0].message, "档位数量较少: bids=3, asks=3");
    assert_eq!(result.warnings[1].warning_type, ValidationWarningType::DataDelay);
    assert_eq!(result.warnings[1].message, "数据延迟: 9000ms");
    assert_eq!(result.warnings[1].details.as_deref(), Some("timestamp: 1000, now: 10000"));
    assert_eq!(result.timestamp, 10_000);
}

#[test]
fn test_ordering_message_and_duplicates() {
    let mut validator = OrderbookValidator::with_default_config();
    let mut book = create_test_orderbook();
    book.bids[1].price = Dec { mantissa: 500000, scale: 1 };
    let result = validator.validate_orderbook_at(&book, 0, quick_timing());
    let ordering: Vec<_> = result.errors.iter().filter(|e| e.error_type == ValidationErrorType::PriceOrdering).collect();
    assert_eq!(ordering.len(), 1);
    assert_eq!(ordering[0].message, "买单价格排序错误: 第2档价格50000.0 >= 第1档价格50000");
    assert_eq!(ordering[0].level_index, Some(1));
    let dups: Vec<_> = result.errors.iter().filter(|e| e.error_type == ValidationErrorType::DuplicatePrice).collect();
    assert_eq!(dups.len(), 1);
    assert_eq!(dups[0].message, "买单重复价格: 50000.0");
}

#[test]
fn test_quantity_and_precision_errors() {
    let mut validator = OrderbookValidator::with_default_config();
    let mut book = create_test_orderbook();
    book.asks[2].quantity = Dec { mantissa: 1, scale: 9 };
    book.bids[2].quantity = Dec { mantissa: 2_000_000, scale: 0 };
    let result = validator.validate_orderbook_at(&book, 0, quick_timing());
    let range: Vec<_> = result.errors.iter().filter(|e| e.error_type == ValidationErrorType::QuantityRange).collect();
    assert_eq!(range.len(), 1);
    assert_eq!(range[0].message, "卖单数量过小: 0.000000001, 最小值: 0.00000001");
    let precision: Vec<_> = result.errors.iter().filter(|e| e.error_type == ValidationErrorType::QuantityPrecision).collect();
    assert_eq!(precision.len(), 1);
    assert_eq!(precision[0].message, "卖单数量精度错误: 0.000000001, 期望精度: 8");
    let unusual: Vec<_> = result.warnings.iter().filter(|w| w.warning_type == ValidationWarningType::UnusualQuantity).collect();
    assert_eq!(unusual.len(), 1);
    assert_eq!(unusual[0].message, "买单数量异常大: 2000000, 最大值: 1000000");
    assert_eq!(unusual[0].details.as_deref(), Some("price: 49998, level: 2"));
}

#[test]
fn test_spread_too_large_and_timeout() {
    let mut validator = OrderbookValidator::with_default_config();
    let mut book = create_test_orderbook();
    book.asks = vec![level(60000, 1), level(60001, 1), level(60002, 1)];
    let result = validator.validate_orderbook_at(&book, 0, quick_timing());
    let spread: Vec<_> = result.errors.iter().filter(|e| e.error_type == ValidationErrorType::SpreadTooLarge).collect();
    assert_eq!(spread.len(), 1);
    assert!(spread[0].message.starts_with("价差过大: 18.18"));
    assert!(spread[0].message.ends_with("%, 最大允许: 5.00%"));

    let slow = ValidationTiming { after_basic_ns: 200_000_000, before_quantities_ns: 200_000_000, before_spread_ns: 200_000_000, total_ns: 300_000_000 };
    let result = validator.validate_orderbook_at(&create_test_orderbook(), 0, slow);
    assert_eq!(result.errors.len(), 1);
    assert_eq!(result.errors[0].error_type, ValidationErrorType::DataFormat);
    assert_eq!(result.errors[0].message, "验证超时");
    assert_eq!(result.validation_time_us, 300_000);
}

#[test]
fn test_strict_mode_stops_after_basic_errors() {
    let mut config = OrderbookValidatorConfig::default();
    config.strict_validation = true;
    config.max_levels = 4;
    let mut validator = OrderbookValidator::new(config);
    let mut book = create_test_orderbook();
    book.bids[1].price = Dec { mantissa: 50001, scale: 0 };
    let result = validator.validate_orderbook_at(&book, 0, quick_timing());
    assert_eq!(result.errors.len(), 1);
    assert_eq!(result.errors[0].error_type, ValidationErrorType::TooManyLevels);
    assert_eq!(result.errors[0].message, "档位数量过多: 6, 最大允许: 4");
}

#[test]
fn test_stats_figures() {
    let book = create_test_orderbook();
    let stats = calculate_orderbook_stats(&book);
    assert_eq!(stats.best_bid, Some(Dec { mantissa: 50000, scale: 0 }));
    assert_eq!(stats.best_ask, Some(Dec { mantissa: 50001, scale: 0 }));
    assert_eq!(stats.spread, Some(Dec { mantissa: 1, scale: 0 }));
    let mid = stats.mid_price.unwrap();
    assert_eq!(dec_compare(mid, Dec { mantissa: 500005, scale: 1 }), 0);
    let tb = stats.total_bid_quantity.unwrap();
    assert_eq!(tb.mantissa, 6);
    assert!(stats.weighted_avg_price.is_some());
}

#[test]
fn test_mean_time_and_reset() {
    let mut validator = OrderbookValidator::with_default_config();
    let book = create_test_orderbook();
    let t1 = ValidationTiming { total_ns: 10_000, ..quick_timing() };
    let t2 = ValidationTiming { total_ns: 21_000, ..quick_timing() };
    validator.validate_orderbook_at(&book, 5, t1);
    validator.validate_orderbook_at(&book, 6, t2);
    assert_eq!(validator.get_stats().avg_validation_time_us, 15);
    assert_eq!(validator.get_stats().warning_count, 2);
    validator.reset_stats();
    assert_eq!(validator.get_stats().total_validations, 0);
    assert!(validator.get_stats().last_validation_result.is_none());
}
