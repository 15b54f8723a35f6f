use crossfury::connectors::common::user_data_parser::{BinanceUserEvent, UserDataParseError, UserDataParser};
use crossfury::types::common::{ExchangeType, MarketType};
use crossfury::types::events::BalanceChangeReason;
use crossfury::types::trading::{OrderSide, OrderStatus, OrderType, PositionSide};

#[test]
fn user_data_parser_test_user_data_parser_creation() {
    let parser = UserDataParser::new(ExchangeType::Binance, MarketType::Spot);
    assert_eq!(parser.exchange(), ExchangeType::Binance);
    assert_eq!(parser.market_type(), MarketType::Spot);
}

#[test]
fn test_only_binance_is_read() {
    assert!(UserDataParser::new(ExchangeType::Binance, MarketType::Spot).check_exchange().is_ok());
    let e = UserDataParser::new(ExchangeType::OKX, MarketType::Futures).check_exchange().unwrap_err();
    assert_eq!(e.message(), "不支持的交易所: OKX");
}

#[test]
fn test_binance_event_kinds() {
    let p = UserDataParser::new(ExchangeType::Binance, MarketType::Spot);
    assert_eq!(p.binance_event_kind(Some("executionReport")).unwrap(), BinanceUserEvent::ExecutionReport);
    assert_eq!(p.binance_event_kind(Some("outboundAccountPosition")).unwrap(), BinanceUserEvent::OutboundAccountPosition);
    assert_eq!(p.binance_event_kind(Some("ACCOUNT_UPDATE")).unwrap(), BinanceUserEvent::AccountUpdate);
    assert_eq!(p.binance_event_kind(Some("ORDER_TRADE_UPDATE")).unwrap(), BinanceUserEvent::OrderTradeUpdate);
    assert_eq!(p.binance_event_kind(None).unwrap_err().message(), "缺少必要字段: event_type");
    assert_eq!(p.binance_event_kind(Some("listStatus")).unwrap_err().message(), "未知事件类型: listStatus");
}

#[test]
fn test_enum_fields() {
    let p = UserDataParser::new(ExchangeType::Binance, MarketType::Futures);
    assert_eq!(p.parse_order_side("buy").unwrap(), OrderSide::Buy);
    assert_eq!(p.parse_order_type("stop_market").unwrap(), OrderType::StopMarket);
    assert_eq!(p.parse_order_status("PARTIALLY_FILLED").unwrap(), OrderStatus::PartiallyFilled);
    assert_eq!(p.parse_position_side("long").unwrap(), PositionSide::Long);
    match p.parse_order_side("hold") {
        Err(UserDataParseError::InvalidEnumValue(m)) => assert_eq!(m, "OrderSide: hold"),
        _ => panic!("expected an invalid value"),
    }
    assert_eq!(p.parse_order_status("gone").unwrap_err().message(), "无效的枚举值: OrderStatus: gone");
}

#[test]
fn test_balance_change_reasons() {
    let p = UserDataParser::new(ExchangeType::Binance, MarketType::Futures);
    assert!(matches!(p.determine_balance_change_reason(None), BalanceChangeReason::Trade));
    assert!(matches!(p.determine_balance_change_reason(Some("ORDER")), BalanceChangeReason::Trade));
    assert!(matches!(p.determine_balance_change_reason(Some("FUNDING_FEE")), BalanceChangeReason::FundingFee));
    assert!(matches!(p.determine_balance_change_reason(Some("DEPOSIT")), BalanceChangeReason::Transfer));
    match p.determine_balance_change_reason(Some("INSURANCE_CLEAR")) {
        BalanceChangeReason::Other(s) => assert_eq!(s, "INSURANCE_CLEAR"),
        _ => panic!("expected another reason"),
    }
}

#[test]
fn test_fill_flags() {
    let p = UserDataParser::new(ExchangeType::Binance, MarketType::Futures);
    assert!(p.is_trade_execution(Some("12345")));
    assert!(!p.is_trade_execution(Some("0")));
    assert!(!p.is_trade_execution(None));
    assert!(p.is_maker("true"));
    assert!(!p.is_maker("false"));
    assert_eq!(UserDataParseError::ChannelSendError.message(), "通道发送失败");
}

#[test]
fn test_classify_user_data_order_of_checks() {
    let binance = UserDataParser::new(ExchangeType::Binance, MarketType::Spot);
    assert!(matches!(binance.classify_user_data("not json"), Err(UserDataParseError::JsonParseError(_))));
    let bybit = UserDataParser::new(ExchangeType::Bybit, MarketType::Spot);
    assert!(matches!(bybit.classify_user_data("{\"e\":\"executionReport\"}"), Err(UserDataParseError::UnsupportedExchange(ExchangeType::Bybit))));
    assert!(matches!(bybit.classify_user_data("{oops"), Err(UserDataParseError::JsonParseError(_))));
    assert_eq!(binance.classify_user_data("{\"E\":1}").unwrap_err().message(), "缺少必要字段: event_type");
    assert_eq!(binance.classify_user_data("{\"e\":\"listStatus\"}").unwrap_err().message(), "未知事件类型: listStatus");
    assert_eq!(binance.classify_user_data("{\"e\":\"executionReport\",\"s\":\"BTCUSDT\"}").unwrap(), BinanceUserEvent::ExecutionReport);
    assert_eq!(binance.classify_user_data("{\"e\":\"ORDER_TRADE_UPDATE\"}").unwrap(), BinanceUserEvent::OrderTradeUpdate);
}
