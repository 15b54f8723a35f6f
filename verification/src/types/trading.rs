//! Trading enums of the futures API and their wire names.
use vstd::prelude::*;
use crate::text::{lemma_upper_case_fixed, str_equals, to_upper, upper_case_of};

verus! {

#[derive(Debug, Clone, Copy, PartialEq, Eq, Structural)]
pub enum OrderSide {
    Buy,
    Sell,
}

/// The wire name of a order side.
pub open spec fn spec_order_side_name(x: OrderSide) -> Seq<char> {
    match x {
        OrderSide::Buy => "BUY"@,
        OrderSide::Sell => "SELL"@,
    }
}

/// The order side whose wire name is exactly `s`, if any.
pub open spec fn spec_order_side_from_name(s: Seq<char>) -> Option<OrderSide> {
    if s == "BUY"@ {
        Some(OrderSide::Buy)
    } else if s == "SELL"@ {
        Some(OrderSide::Sell)
    } else {
        None
    }
}

impl OrderSide {
    /// The wire name, such as `BUY`.
    pub fn to_api_string(&self) -> (r: &'static str)
        ensures
            r@ == spec_order_side_name(*self),
    {
        match self {
            OrderSide::Buy => "BUY",
            OrderSide::Sell => "SELL",
        }
    }

    /// Reads an upper-case wire name; any other text gives `None`.
    pub fn from_upper_api_string(s: &str) -> (r: Option<Self>)
        ensures
            r == spec_order_side_from_name(s@),
    {
        if str_equals(s, "BUY") {
            Some(OrderSide::Buy)
        } else if str_equals(s, "SELL") {
            Some(OrderSide::Sell)
        } else {
            None
        }
    }

    /// Reads a wire name in any letter case: the text is upper-cased first.
    pub fn from_api_string(s: &str) -> (r: Option<Self>)
        ensures
            r == spec_order_side_from_name(upper_case_of(s@)),
    {
        let u = to_upper(s);
        Self::from_upper_api_string(u.as_str())
    }
}

/// The wire name of a order side is its own upper case.
proof fn lemma_order_side_name_upper(x: OrderSide)
    ensures
        upper_case_of(spec_order_side_name(x)) == spec_order_side_name(x),
{
    let n = spec_order_side_name(x);
    reveal_strlit("BUY");
    reveal_strlit("SELL");
    lemma_upper_case_fixed(n);
}

/// Reading back the wire name of a order side gives the same order side, also after it is upper-cased
/// as `from_api_string` does.
pub proof fn lemma_order_side_name_roundtrip(x: OrderSide)
    ensures
        spec_order_side_from_name(spec_order_side_name(x)) == Some(x),
        spec_order_side_from_name(upper_case_of(spec_order_side_name(x))) == Some(x),
{
    lemma_order_side_name_upper(x);
    reveal_strlit("BUY");
    reveal_strlit("SELL");
    match x {
        OrderSide::Buy => {
        },
        OrderSide::Sell => {
            assert("SELL"@.len() != "BUY"@.len());
        },
    }
}

#[derive(Debug, Clone, Copy, PartialEq, Eq, Structural)]
pub enum OrderType {
    Market,
    Limit,
    Stop,
    StopMarket,
    TakeProfit,
    TakeProfitMarket,
    TrailingStopMarket,
}

/// The wire name of a order type.
pub open spec fn spec_order_type_name(x: OrderType) -> Seq<char> {
    match x {
        OrderType::Market => "MARKET"@,
        OrderType::Limit => "LIMIT"@,
        OrderType::Stop => "STOP"@,
        OrderType::StopMarket => "STOP_MARKET"@,
        OrderType::TakeProfit => "TAKE_PROFIT"@,
        OrderType::TakeProfitMarket => "TAKE_PROFIT_MARKET"@,
        OrderType::TrailingStopMarket => "TRAILING_STOP_MARKET"@,
    }
}

/// The order type whose wire name is exactly `s`, if any.
pub open spec fn spec_order_type_from_name(s: Seq<char>) -> Option<OrderType> {
    if s == "MARKET"@ {
        Some(OrderType::Market)
    } else if s == "LIMIT"@ {
        Some(OrderType::Limit)
    } else if s == "STOP"@ {
        Some(OrderType::Stop)
    } else if s == "STOP_MARKET"@ {
        Some(OrderType::StopMarket)
    } else if s == "TAKE_PROFIT"@ {
        Some(OrderType::TakeProfit)
    } else if s == "TAKE_PROFIT_MARKET"@ {
        Some(OrderType::TakeProfitMarket)
    } else if s == "TRAILING_STOP_MARKET"@ {
        Some(OrderType::TrailingStopMarket)
    } else {
        None
    }
}

impl OrderType {
    /// The wire name, such as `MARKET`.
    pub fn to_api_string(&self) -> (r: &'static str)
        ensures
            r@ == spec_order_type_name(*self),
    {
        match self {
            OrderType::Market => "MARKET",
            OrderType::Limit => "LIMIT",
            OrderType::Stop => "STOP",
            OrderType::StopMarket => "STOP_MARKET",
            OrderType::TakeProfit => "TAKE_PROFIT",
            OrderType::TakeProfitMarket => "TAKE_PROFIT_MARKET",
            OrderType::TrailingStopMarket => "TRAILING_STOP_MARKET",
        }
    }

    /// Reads an upper-case wire name; any other text gives `None`.
    pub fn from_upper_api_string(s: &str) -> (r: Option<Self>)
        ensures
            r == spec_order_type_from_name(s@),
    {
        if str_equals(s, "MARKET") {
            Some(OrderType::Market)
        } else if str_equals(s, "LIMIT") {
            Some(OrderType::Limit)
        } else if str_equals(s, "STOP") {
            Some(OrderType::Stop)
        } else if str_equals(s, "STOP_MARKET") {
            Some(OrderType::StopMarket)
        } else if str_equals(s, "TAKE_PROFIT") {
            Some(OrderType::TakeProfit)
        } else if str_equals(s, "TAKE_PROFIT_MARKET") {
            Some(OrderType::TakeProfitMarket)
        } else if str_equals(s, "TRAILING_STOP_MARKET") {
            Some(OrderType::TrailingStopMarket)
        } else {
            None
        }
    }

    /// Reads a wire name in any letter case: the text is upper-cased first.
    pub fn from_api_string(s: &str) -> (r: Option<Self>)
        ensures
            r == spec_order_type_from_name(upper_case_of(s@)),
    {
        let u = to_upper(s);
        Self::from_upper_api_string(u.as_str())
    }
}

/// The wire name of a order type is its own upper case.
proof fn lemma_order_type_name_upper(x: OrderType)
    ensures
        upper_case_of(spec_order_type_name(x)) == spec_order_type_name(x),
{
    let n = spec_order_type_name(x);
    reveal_strlit("MARKET");
    reveal_strlit("LIMIT");
    reveal_strlit("STOP");
    reveal_strlit("STOP_MARKET");
    reveal_strlit("TAKE_PROFIT");
    reveal_strlit("TAKE_PROFIT_MARKET");
    reveal_strlit("TRAILING_STOP_MARKET");
    lemma_upper_case_fixed(n);
}

/// Reading back the wire name of a order type gives the same order type, also after it is upper-cased
/// as `from_api_string` does.
pub proof fn lemma_order_type_name_roundtrip(x: OrderType)
    ensures
        spec_order_type_from_name(spec_order_type_name(x)) == Some(x),
        spec_order_type_from_name(upper_case_of(spec_order_type_name(x))) == Some(x),
{
    lemma_order_type_name_upper(x);
    reveal_strlit("MARKET");
    reveal_strlit("LIMIT");
    reveal_strlit("STOP");
    reveal_strlit("STOP_MARKET");
    reveal_strlit("TAKE_PROFIT");
    reveal_strlit("TAKE_PROFIT_MARKET");
    reveal_strlit("TRAILING_STOP_MARKET");
    match x {
        OrderType::Market => {
        },
        OrderType::Limit => {
            assert("LIMIT"@.len() != "MARKET"@.len());
        },
        OrderType::Stop => {
            assert("STOP"@.len() != "MARKET"@.len());
            assert("STOP"@.len() != "LIMIT"@.len());
        },
        OrderType::StopMarket => {
            assert("STOP_MARKET"@.len() != "MARKET"@.len());
            assert("STOP_MARKET"@.len() != "LIMIT"@.len());
            assert("STOP_MARKET"@.len() != "STOP"@.len());
        },
        OrderType::TakeProfit => {
            assert("TAKE_PROFIT"@.len() != "MARKET"@.len());
            assert("TAKE_PROFIT"@.len() != "LIMIT"@.len());
            assert("TAKE_PROFIT"@.len() != "STOP"@.len());
            assert("TAKE_PROFIT"@[0] != "STOP_MARKET"@[0]);
        },
        OrderType::TakeProfitMarket => {
            assert("TAKE_PROFIT_MARKET"@.len() != "MARKET"@.len());
            assert("TAKE_PROFIT_MARKET"@.len() != "LIMIT"@.len());
            assert("TAKE_PROFIT_MARKET"@.len() != "STOP"@.len());
            assert("TAKE_PROFIT_MARKET"@.len() != "STOP_MARKET"@.len());
            assert("TAKE_PROFIT_MARKET"@.len() != "TAKE_PROFIT"@.len());
        },
        OrderType::TrailingStopMarket => {
            assert("TRAILING_STOP_MARKET"@.len() != "MARKET"@.len());
            assert("TRAILING_STOP_MARKET"@.len() != "LIMIT"@.len());
            assert("TRAILING_STOP_MARKET"@.len() != "STOP"@.len());
            assert("TRAILING_STOP_MARKET"@.len() != "STOP_MARKET"@.len());
            assert("TRAILING_STOP_MARKET"@.len() != "TAKE_PROFIT"@.len());
            assert("TRAILING_STOP_MARKET"@.len() != "TAKE_PROFIT_MARKET"@.len());
        },
    }
}

#[derive(Debug, Clone, Copy, PartialEq, Eq, Structural)]
pub enum OrderStatus {
    New,
    PartiallyFilled,
    Filled,
    Canceled,
    Rejected,
    Expired,
}

/// The wire name of a order status.
pub open spec fn spec_order_status_name(x: OrderStatus) -> Seq<char> {
    match x {
        OrderStatus::New => "NEW"@,
        OrderStatus::PartiallyFilled => "PARTIALLY_FILLED"@,
        OrderStatus::Filled => "FILLED"@,
        OrderStatus::Canceled => "CANCELED"@,
        OrderStatus::Rejected => "REJECTED"@,
        OrderStatus::Expired => "EXPIRED"@,
    }
}

/// The order status whose wire name is exactly `s`, if any.
pub open spec fn spec_order_status_from_name(s: Seq<char>) -> Option<OrderStatus> {
    if s == "NEW"@ {
        Some(OrderStatus::New)
    } else if s == "PARTIALLY_FILLED"@ {
        Some(OrderStatus::PartiallyFilled)
    } else if s == "FILLED"@ {
        Some(OrderStatus::Filled)
    } else if s == "CANCELED"@ {
        Some(OrderStatus::Canceled)
    } else if s == "REJECTED"@ {
        Some(OrderStatus::Rejected)
    } else if s == "EXPIRED"@ {
        Some(OrderStatus::Expired)
    } else {
        None
    }
}

impl OrderStatus {
    /// The wire name, such as `NEW`.
    pub fn to_api_string(&self) -> (r: &'static str)
        ensures
            r@ == spec_order_status_name(*self),
    {
        match self {
            OrderStatus::New => "NEW",
            OrderStatus::PartiallyFilled => "PARTIALLY_FILLED",
            OrderStatus::Filled => "FILLED",
            OrderStatus::Canceled => "CANCELED",
            OrderStatus::Rejected => "REJECTED",
            OrderStatus::Expired => "EXPIRED",
        }
    }

    /// Reads an upper-case wire name; any other text gives `None`.
    pub fn from_upper_api_string(s: &str) -> (r: Option<Self>)
        ensures
            r == spec_order_status_from_name(s@),
    {
        if str_equals(s, "NEW") {
            Some(OrderStatus::New)
        } else if str_equals(s, "PARTIALLY_FILLED") {
            Some(OrderStatus::PartiallyFilled)
        } else if str_equals(s, "FILLED") {
            Some(OrderStatus::Filled)
        } else if str_equals(s, "CANCELED") {
            Some(OrderStatus::Canceled)
        } else if str_equals(s, "REJECTED") {
            Some(OrderStatus::Rejected)
        } else if str_equals(s, "EXPIRED") {
            Some(OrderStatus::Expired)
        } else {
            None
        }
    }

    /// Reads a wire name in any letter case: the text is upper-cased first.
    pub fn from_api_string(s: &str) -> (r: Option<Self>)
        ensures
            r == spec_order_status_from_name(upper_case_of(s@)),
    {
        let u = to_upper(s);
        Self::from_upper_api_string(u.as_str())
    }
}

/// The wire name of a order status is its own upper case.
proof fn lemma_order_status_name_upper(x: OrderStatus)
    ensures
        upper_case_of(spec_order_status_name(x)) == spec_order_status_name(x),
{
    let n = spec_order_status_name(x);
    reveal_strlit("NEW");
    reveal_strlit("PARTIALLY_FILLED");
    reveal_strlit("FILLED");
    reveal_strlit("CANCELED");
    reveal_strlit("REJECTED");
    reveal_strlit("EXPIRED");
    lemma_upper_case_fixed(n);
}

/// Reading back the wire name of a order status gives the same order status, also after it is upper-cased
/// as `from_api_string` does.
pub proof fn lemma_order_status_name_roundtrip(x: OrderStatus)
    ensures
        spec_order_status_from_name(spec_order_status_name(x)) == Some(x),
        spec_order_status_from_name(upper_case_of(spec_order_status_name(x))) == Some(x),
{
    lemma_order_status_name_upper(x);
    reveal_strlit("NEW");
    reveal_strlit("PARTIALLY_FILLED");
    reveal_strlit("FILLED");
    reveal_strlit("CANCELED");
    reveal_strlit("REJECTED");
    reveal_strlit("EXPIRED");
    match x {
        OrderStatus::New => {
        },
        OrderStatus::PartiallyFilled => {
            assert("PARTIALLY_FILLED"@.len() != "NEW"@.len());
        },
        OrderStatus::Filled => {
            assert("FILLED"@.len() != "NEW"@.len());
            assert("FILLED"@.len() != "PARTIALLY_FILLED"@.len());
        },
        OrderStatus::Canceled => {
            assert("CANCELED"@.len() != "NEW"@.len());
            assert("CANCELED"@.len() != "PARTIALLY_FILLED"@.len());
            assert("CANCELED"@.len() != "FILLED"@.len());
        },
        OrderStatus::Rejected => {
            assert("REJECTED"@.len() != "NEW"@.len());
            assert("REJECTED"@.len() != "PARTIALLY_FILLED"@.len());
            assert("REJECTED"@.len() != "FILLED"@.len());
            assert("REJECTED"@[0] != "CANCELED"@[0]);
        },
        OrderStatus::Expired => {
            assert("EXPIRED"@.len() != "NEW"@.len());
            assert("EXPIRED"@.len() != "PARTIALLY_FILLED"@.len());
            assert("EXPIRED"@.len() != "FILLED"@.len());
            assert("EXPIRED"@.len() != "CANCELED"@.len());
            assert("EXPIRED"@.len() != "REJECTED"@.len());
        },
    }
}

#[derive(Debug, Clone, Copy, PartialEq, Eq, Structural)]
pub enum PositionSide {
    Both,
    Long,
    Short,
}

/// The wire name of a position side.
pub open spec fn spec_position_side_name(x: PositionSide) -> Seq<char> {
    match x {
        PositionSide::Both => "BOTH"@,
        PositionSide::Long => "LONG"@,
        PositionSide::Short => "SHORT"@,
    }
}

/// The position side whose wire name is exactly `s`, if any.
pub open spec fn spec_position_side_from_name(s: Seq<char>) -> Option<PositionSide> {
    if s == "BOTH"@ {
        Some(PositionSide::Both)
    } else if s == "LONG"@ {
        Some(PositionSide::Long)
    } else if s == "SHORT"@ {
        Some(PositionSide::Short)
    } else {
        None
    }
}

impl PositionSide {
    /// The wire name, such as `BOTH`.
    pub fn to_api_string(&self) -> (r: &'static str)
        ensures
            r@ == spec_position_side_name(*self),
    {
        match self {
            PositionSide::Both => "BOTH",
            PositionSide::Long => "LONG",
            PositionSide::Short => "SHORT",
        }
    }

    /// Reads an upper-case wire name; any other text gives `None`.
    pub fn from_upper_api_string(s: &str) -> (r: Option<Self>)
        ensures
            r == spec_position_side_from_name(s@),
    {
        if str_equals(s, "BOTH") {
            Some(PositionSide::Both)
        } else if str_equals(s, "LONG") {
            Some(PositionSide::Long)
        } else if str_equals(s, "SHORT") {
            Some(PositionSide::Short)
        } else {
            None
        }
    }

    /// Reads a wire name in any letter case: the text is upper-cased first.
    pub fn from_api_string(s: &str) -> (r: Option<Self>)
        ensures
            r == spec_position_side_from_name(upper_case_of(s@)),
    {
        let u = to_upper(s);
        Self::from_upper_api_string(u.as_str())
    }
}

/// The wire name of a position side is its own upper case.
proof fn lemma_position_side_name_upper(x: PositionSide)
    ensures
        upper_case_of(spec_position_side_name(x)) == spec_position_side_name(x),
{
    let n = spec_position_side_name(x);
    reveal_strlit("BOTH");
    reveal_strlit("LONG");
    reveal_strlit("SHORT");
    lemma_upper_case_fixed(n);
}

/// Reading back the wire name of a position side gives the same position side, also after it is upper-cased
/// as `from_api_string` does.
pub proof fn lemma_position_side_name_roundtrip(x: PositionSide)
    ensures
        spec_position_side_from_name(spec_position_side_name(x)) == Some(x),
        spec_position_side_from_name(upper_case_of(spec_position_side_name(x))) == Some(x),
{
    lemma_position_side_name_upper(x);
    reveal_strlit("BOTH");
    reveal_strlit("LONG");
    reveal_strlit("SHORT");
    match x {
        PositionSide::Both => {
        },
        PositionSide::Long => {
            assert("LONG"@[0] != "BOTH"@[0]);
        },
        PositionSide::Short => {
            assert("SHORT"@.len() != "BOTH"@.len());
            assert("SHORT"@.len() != "LONG"@.len());
        },
    }
}

#[derive(Debug, Clone, Copy, PartialEq, Eq, Structural)]
pub enum TimeInForce {
    GTC,
    IOC,
    FOK,
    GTX,
}

/// The wire name of a time in force.
pub open spec fn spec_time_in_force_name(x: TimeInForce) -> Seq<char> {
    match x {
        TimeInForce::GTC => "GTC"@,
        TimeInForce::IOC => "IOC"@,
        TimeInForce::FOK => "FOK"@,
        TimeInForce::GTX => "GTX"@,
    }
}

/// The time in force whose wire name is exactly `s`, if any.
pub open spec fn spec_time_in_force_from_name(s: Seq<char>) -> Option<TimeInForce> {
    if s == "GTC"@ {
        Some(TimeInForce::GTC)
    } else if s == "IOC"@ {
        Some(TimeInForce::IOC)
    } else if s == "FOK"@ {
        Some(TimeInForce::FOK)
    } else if s == "GTX"@ {
        Some(TimeInForce::GTX)
    } else {
        None
    }
}

impl TimeInForce {
    /// The wire name, such as `GTC`.
    pub fn to_api_string(&self) -> (r: &'static str)
        ensures
            r@ == spec_time_in_force_name(*self),
    {
        match self {
            TimeInForce::GTC => "GTC",
            TimeInForce::IOC => "IOC",
            TimeInForce::FOK => "FOK",
            TimeInForce::GTX => "GTX",
        }
    }

    /// Reads an upper-case wire name; any other text gives `None`.
    pub fn from_upper_api_string(s: &str) -> (r: Option<Self>)
        ensures
            r == spec_time_in_force_from_name(s@),
    {
        if str_equals(s, "GTC") {
            Some(TimeInForce::GTC)
        } else if str_equals(s, "IOC") {
            Some(TimeInForce::IOC)
        } else if str_equals(s, "FOK") {
            Some(TimeInForce::FOK)
        } else if str_equals(s, "GTX") {
            Some(TimeInForce::GTX)
        } else {
            None
        }
    }

    /// Reads a wire name in any letter case: the text is upper-cased first.
    pub fn from_api_string(s: &str) -> (r: Option<Self>)
        ensures
            r == spec_time_in_force_from_name(upper_case_of(s@)),
    {
        let u = to_upper(s);
        Self::from_upper_api_string(u.as_str())
    }
}

/// The wire name of a time in force is its own upper case.
proof fn lemma_time_in_force_name_upper(x: TimeInForce)
    ensures
        upper_case_of(spec_time_in_force_name(x)) == spec_time_in_force_name(x),
{
    let n = spec_time_in_force_name(x);
    reveal_strlit("GTC");
    reveal_strlit("IOC");
    reveal_strlit("FOK");
    reveal_strlit("GTX");
    lemma_upper_case_fixed(n);
}

/// Reading back the wire name of a time in force gives the same time in force, also after it is upper-cased
/// as `from_api_string` does.
pub proof fn lemma_time_in_force_name_roundtrip(x: TimeInForce)
    ensures
        spec_time_in_force_from_name(spec_time_in_force_name(x)) == Some(x),
        spec_time_in_force_from_name(upper_case_of(spec_time_in_force_name(x))) == Some(x),
{
    lemma_time_in_force_name_upper(x);
    reveal_strlit("GTC");
    reveal_strlit("IOC");
    reveal_strlit("FOK");
    reveal_strlit("GTX");
    match x {
        TimeInForce::GTC => {
        },
        TimeInForce::IOC => {
            assert("IOC"@[0] != "GTC"@[0]);
        },
        TimeInForce::FOK => {
            assert("FOK"@[0] != "GTC"@[0]);
            assert("FOK"@[0] != "IOC"@[0]);
        },
        TimeInForce::GTX => {
            assert("GTX"@[2] != "GTC"@[2]);
            assert("GTX"@[0] != "IOC"@[0]);
            assert("GTX"@[0] != "FOK"@[0]);
        },
    }
}

/// A request to cancel an order, by exchange or client order id.
#[derive(Debug, Clone)]
pub struct CancelOrderRequest {
    pub symbol: String,
    pub order_id: Option<String>,
    pub client_order_id: Option<String>,
}

/// A request for the state of an order, by exchange or client order id.
#[derive(Debug, Clone)]
pub struct QueryOrderRequest {
    pub symbol: String,
    pub order_id: Option<String>,
    pub client_order_id: Option<String>,
}

} // verus!
