//! The decisions of user-data parsing: which exchanges are handled, which Binance event
//! a message is, how the wire names of sides, types, statuses and reasons are read, and
//! the errors. Reading JSON and its numbers, and sending events, is done around it.
use vstd::prelude::*;
use crate::text::{owned, str_equals, upper_case_of};
use crate::types::common::{ExchangeType, MarketType};
use crate::types::events::BalanceChangeReason;
use crate::types::trading::{
    spec_order_side_from_name, spec_order_status_from_name, spec_order_type_from_name,
    spec_position_side_from_name, OrderSide, OrderStatus, OrderType, PositionSide,
};

verus! {

/// Why user data could not be read or passed on.
#[derive(Debug)]
pub enum UserDataParseError {
    JsonParseError(String),
    MissingField(String),
    UnsupportedExchange(ExchangeType),
    UnknownEventType(String),
    InvalidEnumValue(String),
    ChannelSendError,
}

/// How `{:?}` writes an exchange.
pub open spec fn spec_exchange_debug_name(e: ExchangeType) -> Seq<char> {
    match e {
        ExchangeType::Binance => "Binance"@,
        ExchangeType::Bybit => "Bybit"@,
        ExchangeType::OKX => "OKX"@,
        ExchangeType::LBank => "LBank"@,
        ExchangeType::XTcom => "XTcom"@,
        ExchangeType::Tapbit => "Tapbit"@,
        ExchangeType::HBit => "HBit"@,
        ExchangeType::Batonex => "Batonex"@,
        ExchangeType::Coincatch => "Coincatch"@,
    }
}

/// The debug name of an exchange.
pub fn exchange_debug_name(e: ExchangeType) -> (r: &'static str)
    ensures
        r@ == spec_exchange_debug_name(e),
{
    match e {
        ExchangeType::Binance => "Binance",
        ExchangeType::Bybit => "Bybit",
        ExchangeType::OKX => "OKX",
        ExchangeType::LBank => "LBank",
        ExchangeType::XTcom => "XTcom",
        ExchangeType::Tapbit => "Tapbit",
        ExchangeType::HBit => "HBit",
        ExchangeType::Batonex => "Batonex",
        ExchangeType::Coincatch => "Coincatch",
    }
}

/// The text of an error.
pub open spec fn spec_user_data_error_text(e: UserDataParseError) -> Seq<char> {
    match e {
        UserDataParseError::JsonParseError(m) => "JSON 解析失败: "@ + m@,
        UserDataParseError::MissingField(m) => "缺少必要字段: "@ + m@,
        UserDataParseError::UnsupportedExchange(x) => "不支持的交易所: "@ + spec_exchange_debug_name(x),
        UserDataParseError::UnknownEventType(m) => "未知事件类型: "@ + m@,
        UserDataParseError::InvalidEnumValue(m) => "无效的枚举值: "@ + m@,
        UserDataParseError::ChannelSendError => "通道发送失败"@,
    }
}

impl UserDataParseError {
    /// The text of the error.
    pub fn message(&self) -> (r: String)
        ensures
            r@ == spec_user_data_error_text(*self),
    {
        match self {
            UserDataParseError::JsonParseError(m) => owned("JSON 解析失败: ").concat(m.as_str()),
            UserDataParseError::MissingField(m) => owned("缺少必要字段: ").concat(m.as_str()),
            UserDataParseError::UnsupportedExchange(x) => owned("不支持的交易所: ").concat(exchange_debug_name(*x)),
            UserDataParseError::UnknownEventType(m) => owned("未知事件类型: ").concat(m.as_str()),
            UserDataParseError::InvalidEnumValue(m) => owned("无效的枚举值: ").concat(m.as_str()),
            UserDataParseError::ChannelSendError => owned("通道发送失败"),
        }
    }
}

/// The Binance user-data events that are read.
#[derive(Debug, Clone, Copy, PartialEq, Eq, Structural)]
pub enum BinanceUserEvent {
    /// `executionReport`: a spot order update.
    ExecutionReport,
    /// `outboundAccountPosition`: spot balances.
    OutboundAccountPosition,
    /// `ACCOUNT_UPDATE`: futures balances and positions.
    AccountUpdate,
    /// `ORDER_TRADE_UPDATE`: a futures order update, with a fill.
    OrderTradeUpdate,
}

/// The Binance event that an event name names.
pub open spec fn spec_binance_event(name: Seq<char>) -> Option<BinanceUserEvent> {
    if name == "executionReport"@ {
        Some(BinanceUserEvent::ExecutionReport)
    } else if name == "outboundAccountPosition"@ {
        Some(BinanceUserEvent::OutboundAccountPosition)
    } else if name == "ACCOUNT_UPDATE"@ {
        Some(BinanceUserEvent::AccountUpdate)
    } else if name == "ORDER_TRADE_UPDATE"@ {
        Some(BinanceUserEvent::OrderTradeUpdate)
    } else {
        None
    }
}

/// The reason of a balance change that the field `m` gives; a change with no reason is
/// a trade.
pub open spec fn spec_change_reason_matches(m: Option<Seq<char>>, r: BalanceChangeReason) -> bool {
    match m {
        None => r is Trade,
        Some(x) => if x == "ORDER"@ {
            r is Trade
        } else if x == "FUNDING_FEE"@ {
            r is FundingFee
        } else if x == "WITHDRAW"@ || x == "DEPOSIT"@ {
            r is Transfer
        } else {
            (r matches BalanceChangeReason::Other(s) && s@ == x)
        },
    }
}

/// What `serde_json::from_str` makes of a raw message, as far as one field goes: `None`
/// when the text is not JSON, else the string field `key` of the value, if there is one.
pub uninterp spec fn json_string_field_of(raw: Seq<char>, key: Seq<char>) -> Option<Option<Seq<char>>>;

/// Reads a raw message with `serde_json::from_str` into a `serde_json::Value` and gives
/// its string field `key`, if any; text that is not JSON gives the parser's error text.
#[verifier::external_body]
fn json_string_field(raw: &str, key: &str) -> (r: Result<Option<String>, String>)
    ensures
        r is Err <==> json_string_field_of(raw@, key@) is None,
        r matches Ok(e) ==> json_string_field_of(raw@, key@) == Some(match e {
            Some(n) => Some(n@),
            None => None,
        }),
{
    match serde_json::from_str::<serde_json::Value>(raw) {
        Ok(v) => Ok(v.get(key).and_then(|x| x.as_str()).map(|x| x.to_string())),
        Err(e) => Err(e.to_string()),
    }
}

/// Reads user data for one exchange and market.
#[derive(Debug, Clone, Copy, PartialEq, Eq, Structural)]
pub struct UserDataParser {
    exchange: ExchangeType,
    market_type: MarketType,
}

impl UserDataParser {
    /// The exchange read for.
    pub closed spec fn spec_exchange(&self) -> ExchangeType {
        self.exchange
    }

    /// The market read for.
    pub closed spec fn spec_market_type(&self) -> MarketType {
        self.market_type
    }

    /// A parser for an exchange and a market.
    pub fn new(exchange: ExchangeType, market_type: MarketType) -> (r: Self)
        ensures
            r.spec_exchange() == exchange,
            r.spec_market_type() == market_type,
    {
        UserDataParser { exchange, market_type }
    }

    /// The exchange read for.
    pub fn exchange(&self) -> (r: ExchangeType)
        ensures
            r == self.spec_exchange(),
    {
        self.exchange
    }

    /// The market read for.
    pub fn market_type(&self) -> (r: MarketType)
        ensures
            r == self.spec_market_type(),
    {
        self.market_type
    }

    /// Whether this parser's exchange is read: only Binance is.
    pub fn check_exchange(&self) -> (r: Result<(), UserDataParseError>)
        ensures
            r is Ok <==> self.spec_exchange() == ExchangeType::Binance,
            r matches Err(e) ==> e == UserDataParseError::UnsupportedExchange(self.spec_exchange()),
    {
        match self.exchange {
            ExchangeType::Binance => Ok(()),
            other => Err(UserDataParseError::UnsupportedExchange(other)),
        }
    }

    /// Which Binance event a raw message is, checked in this order: the text must be JSON,
    /// the exchange must be Binance, and the field `e` must name a known event.
    pub fn classify_user_data(&self, raw: &str) -> (r: Result<BinanceUserEvent, UserDataParseError>)
        ensures
            json_string_field_of(raw@, "e"@) is None ==> r matches Err(UserDataParseError::JsonParseError(_)),
            json_string_field_of(raw@, "e"@) is Some && self.spec_exchange() != ExchangeType::Binance
                ==> r == Err::<BinanceUserEvent, UserDataParseError>(UserDataParseError::UnsupportedExchange(self.spec_exchange())),
            self.spec_exchange() == ExchangeType::Binance ==> (json_string_field_of(raw@, "e"@) matches Some(ev) ==> match ev {
                None => (r matches Err(UserDataParseError::MissingField(f)) && f@ == "event_type"@),
                Some(n) => match spec_binance_event(n) {
                    Some(k) => r == Ok::<BinanceUserEvent, UserDataParseError>(k),
                    None => (r matches Err(UserDataParseError::UnknownEventType(t)) && t@ == n),
                },
            }),
    {
        let event = match json_string_field(raw, "e") {
            Ok(e) => e,
            Err(message) => {
                return Err(UserDataParseError::JsonParseError(message));
            },
        };
        match self.check_exchange() {
            Ok(()) => {},
            Err(e) => {
                return Err(e);
            },
        }
        match &event {
            Some(n) => self.binance_event_kind(Some(n.as_str())),
            None => self.binance_event_kind(None),
        }
    }

    /// Which Binance event the field `e` names; a missing name is a missing field
    /// `event_type`, an unknown one an unknown event type.
    pub fn binance_event_kind(&self, event_type: Option<&str>) -> (r: Result<BinanceUserEvent, UserDataParseError>)
        ensures
            event_type is None ==> (r matches Err(UserDataParseError::MissingField(f)) && f@ == "event_type"@),
            event_type matches Some(n) ==> match spec_binance_event(n@) {
                Some(k) => r == Ok::<BinanceUserEvent, UserDataParseError>(k),
                None => (r matches Err(UserDataParseError::UnknownEventType(t)) && t@ == n@),
            },
    {
        match event_type {
            None => Err(UserDataParseError::MissingField(owned("event_type"))),
            Some(n) => {
                if str_equals(n, "executionReport") {
                    Ok(BinanceUserEvent::ExecutionReport)
                } else if str_equals(n, "outboundAccountPosition") {
                    Ok(BinanceUserEvent::OutboundAccountPosition)
                } else if str_equals(n, "ACCOUNT_UPDATE") {
                    Ok(BinanceUserEvent::AccountUpdate)
                } else if str_equals(n, "ORDER_TRADE_UPDATE") {
                    Ok(BinanceUserEvent::OrderTradeUpdate)
                } else {
                    Err(UserDataParseError::UnknownEventType(owned(n)))
                }
            },
        }
    }

    /// Reads an order side in any letter case.
    pub fn parse_order_side(&self, side_str: &str) -> (r: Result<OrderSide, UserDataParseError>)
        ensures
            match spec_order_side_from_name(upper_case_of(side_str@)) {
                Some(x) => r == Ok::<OrderSide, UserDataParseError>(x),
                None => (r matches Err(UserDataParseError::InvalidEnumValue(m)) && m@ == "OrderSide: "@ + side_str@),
            },
    {
        match OrderSide::from_api_string(side_str) {
            Some(x) => Ok(x),
            None => Err(UserDataParseError::InvalidEnumValue(owned("OrderSide: ").concat(side_str))),
        }
    }

    /// Reads an order type in any letter case.
    pub fn parse_order_type(&self, type_str: &str) -> (r: Result<OrderType, UserDataParseError>)
        ensures
            match spec_order_type_from_name(upper_case_of(type_str@)) {
                Some(x) => r == Ok::<OrderType, UserDataParseError>(x),
                None => (r matches Err(UserDataParseError::InvalidEnumValue(m)) && m@ == "OrderType: "@ + type_str@),
            },
    {
        match OrderType::from_api_string(type_str) {
            Some(x) => Ok(x),
            None => Err(UserDataParseError::InvalidEnumValue(owned("OrderType: ").concat(type_str))),
        }
    }

    /// Reads an order status in any letter case.
    pub fn parse_order_status(&self, status_str: &str) -> (r: Result<OrderStatus, UserDataParseError>)
        ensures
            match spec_order_status_from_name(upper_case_of(status_str@)) {
                Some(x) => r == Ok::<OrderStatus, UserDataParseError>(x),
                None => (r matches Err(UserDataParseError::InvalidEnumValue(m)) && m@ == "OrderStatus: "@ + status_str@),
            },
    {
        match OrderStatus::from_api_string(status_str) {
            Some(x) => Ok(x),
            None => Err(UserDataParseError::InvalidEnumValue(owned("OrderStatus: ").concat(status_str))),
        }
    }

    /// Reads a position side in any letter case.
    pub fn parse_position_side(&self, side_str: &str) -> (r: Result<PositionSide, UserDataParseError>)
        ensures
            match spec_position_side_from_name(upper_case_of(side_str@)) {
                Some(x) => r == Ok::<PositionSide, UserDataParseError>(x),
                None => (r matches Err(UserDataParseError::InvalidEnumValue(m)) && m@ == "PositionSide: "@ + side_str@),
            },
    {
        match PositionSide::from_api_string(side_str) {
            Some(x) => Ok(x),
            None => Err(UserDataParseError::InvalidEnumValue(owned("PositionSide: ").concat(side_str))),
        }
    }

    /// The reason of a balance change, from the event's field `m`.
    pub fn determine_balance_change_reason(&self, m: Option<&str>) -> (r: BalanceChangeReason)
        ensures
            spec_change_reason_matches(
                match m {
                    Some(x) => Some(x@),
                    None => None,
                },
                r,
            ),
    {
        match m {
            None => BalanceChangeReason::Trade,
            Some(x) => {
                if str_equals(x, "ORDER") {
                    BalanceChangeReason::Trade
                } else if str_equals(x, "FUNDING_FEE") {
                    BalanceChangeReason::FundingFee
                } else if str_equals(x, "WITHDRAW") || str_equals(x, "DEPOSIT") {
                    BalanceChangeReason::Transfer
                } else {
                    BalanceChangeReason::Other(owned(x))
                }
            },
        }
    }

    /// Whether an order update carries a fill: its trade id `t` is there and is not `0`.
    pub fn is_trade_execution(&self, trade_id: Option<&str>) -> (r: bool)
        ensures
            r == (trade_id matches Some(t) && t@ != "0"@),
    {
        match trade_id {
            Some(t) => !str_equals(t, "0"),
            None => false,
        }
    }

    /// Whether the field `m` of a fill says the maker side: it reads `true`.
    pub fn is_maker(&self, flag: &str) -> (r: bool)
        ensures
            r == (flag@ == "true"@),
    {
        str_equals(flag, "true")
    }
}

/// Each of the four Binance user-data event names names an event of its own, and no other
/// name is recognised: `executionReport` a spot order report, `outboundAccountPosition` a
/// spot balance update, `ACCOUNT_UPDATE` a futures account update and `ORDER_TRADE_UPDATE`
/// a futures order update. A balance change without a reason, or for an order, is a trade;
/// `FUNDING_FEE` is a funding fee; a withdrawal or a deposit is a transfer; and any other
/// reason is kept as it was given.
pub proof fn lemma_user_data_tables(name: Seq<char>, reason: Seq<char>, r: BalanceChangeReason)
    ensures
        spec_binance_event("executionReport"@) == Some(BinanceUserEvent::ExecutionReport),
        spec_binance_event("outboundAccountPosition"@) == Some(BinanceUserEvent::OutboundAccountPosition),
        spec_binance_event("ACCOUNT_UPDATE"@) == Some(BinanceUserEvent::AccountUpdate),
        spec_binance_event("ORDER_TRADE_UPDATE"@) == Some(BinanceUserEvent::OrderTradeUpdate),
        name != "executionReport"@ && name != "outboundAccountPosition"@ && name != "ACCOUNT_UPDATE"@
            && name != "ORDER_TRADE_UPDATE"@ ==> spec_binance_event(name) is None,
        spec_change_reason_matches(None, r) <==> r is Trade,
        spec_change_reason_matches(Some("ORDER"@), r) <==> r is Trade,
        spec_change_reason_matches(Some("FUNDING_FEE"@), r) <==> r is FundingFee,
        spec_change_reason_matches(Some("WITHDRAW"@), r) <==> r is Transfer,
        spec_change_reason_matches(Some("DEPOSIT"@), r) <==> r is Transfer,
        reason != "ORDER"@ && reason != "FUNDING_FEE"@ && reason != "WITHDRAW"@ && reason != "DEPOSIT"@ ==> (
            spec_change_reason_matches(Some(reason), r) <==> (r matches BalanceChangeReason::Other(s) && s@ == reason)),
{
    reveal_strlit("executionReport");
    reveal_strlit("outboundAccountPosition");
    reveal_strlit("ACCOUNT_UPDATE");
    reveal_strlit("ORDER_TRADE_UPDATE");
    reveal_strlit("ORDER");
    reveal_strlit("FUNDING_FEE");
    reveal_strlit("WITHDRAW");
    reveal_strlit("DEPOSIT");
    let names = seq!["executionReport"@, "outboundAccountPosition"@, "ACCOUNT_UPDATE"@, "ORDER_TRADE_UPDATE"@];
    assert forall|i: int, j: int| 0 <= i < j < 4 implies names[i] != names[j] by {
        assert(names[i][0] != names[j][0]);
    }
    let reasons = seq!["ORDER"@, "FUNDING_FEE"@, "WITHDRAW"@, "DEPOSIT"@];
    assert forall|i: int, j: int| 0 <= i < j < 4 implies reasons[i] != reasons[j] by {
        assert(reasons[i][0] != reasons[j][0]);
    }
}

} // verus!
