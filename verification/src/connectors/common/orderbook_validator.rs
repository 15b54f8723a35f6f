//! Checks an order book for completeness and consistency: its size, the order and
//! precision of its prices, duplicate prices, quantities against limits, and the spread;
//! and computes its summary figures. Prices and quantities are `rust_decimal` numbers,
//! held as mantissa and scale. Times are milliseconds, elapsed times nanoseconds.
use vstd::prelude::*;
use crate::clock::{now_millis, now_nanos};
use crate::decimal::{
    dec_checked_add, dec_checked_div, dec_checked_mul, dec_checked_sub, dec_compare,
    dec_eq, dec_fixed_text, dec_le, dec_lt, dec_text, decimal_fixed_text, difference_of,
    lemma_lift_pair, product_of, quotient_of, spec_dec_text, sum_of, Dec,
};
use crate::text::{decimal_text, owned, spec_decimal};

verus! {

/// One price level of a book.
#[derive(Debug, Clone, Copy, PartialEq, Eq, Structural)]
pub struct OrderBookLevel {
    pub price: Dec,
    pub quantity: Dec,
}

impl OrderBookLevel {
    /// Both numbers within range.
    pub open spec fn wf(self) -> bool {
        self.price.wf() && self.quantity.wf()
    }
}

/// Every level within range.
pub open spec fn levels_wf(levels: Seq<OrderBookLevel>) -> bool {
    forall|i: int| 0 <= i < levels.len() ==> #[trigger] levels[i].wf()
}

/// The book that the validator reads: bids best first, asks best first, and the time of
/// the book in milliseconds.
#[derive(Debug, Clone)]
pub struct OrderBookSnapshot {
    pub symbol: String,
    pub bids: Vec<OrderBookLevel>,
    pub asks: Vec<OrderBookLevel>,
    pub timestamp: i64,
}

impl OrderBookSnapshot {
    /// Every level within range.
    pub open spec fn wf(&self) -> bool {
        levels_wf(self.bids@) && levels_wf(self.asks@)
    }
}

/// Settings of the validator. Percentages are decimals too.
#[derive(Debug, Clone, Copy, PartialEq, Eq, Structural)]
pub struct OrderbookValidatorConfig {
    pub strict_validation: bool,
    pub max_price_deviation_percent: Dec,
    pub min_order_quantity: Dec,
    pub max_order_quantity: Dec,
    pub max_spread_percent: Dec,
    pub max_levels: usize,
    pub price_precision: u32,
    pub quantity_precision: u32,
    pub check_price_ordering: bool,
    pub check_duplicate_prices: bool,
    pub validation_timeout_ms: u64,
}

impl OrderbookValidatorConfig {
    /// Every decimal within range.
    pub open spec fn wf(self) -> bool {
        &&& self.max_price_deviation_percent.wf()
        &&& self.min_order_quantity.wf()
        &&& self.max_order_quantity.wf()
        &&& self.max_spread_percent.wf()
    }
}

/// The default settings.
pub open spec fn spec_default_validator_config() -> OrderbookValidatorConfig {
    OrderbookValidatorConfig {
        strict_validation: false,
        max_price_deviation_percent: Dec { mantissa: 10, scale: 0 },
        min_order_quantity: Dec { mantissa: 1, scale: 8 },
        max_order_quantity: Dec { mantissa: 1000000, scale: 0 },
        max_spread_percent: Dec { mantissa: 5, scale: 0 },
        max_levels: 1000,
        price_precision: 8,
        quantity_precision: 8,
        check_price_ordering: true,
        check_duplicate_prices: true,
        validation_timeout_ms: 100,
    }
}

impl Default for OrderbookValidatorConfig {
    fn default() -> (r: Self)
        ensures
            r == spec_default_validator_config(),
    {
        OrderbookValidatorConfig {
            strict_validation: false,
            max_price_deviation_percent: Dec { mantissa: 10, scale: 0 },
            min_order_quantity: Dec { mantissa: 1, scale: 8 },
            max_order_quantity: Dec { mantissa: 1000000, scale: 0 },
            max_spread_percent: Dec { mantissa: 5, scale: 0 },
            max_levels: 1000,
            price_precision: 8,
            quantity_precision: 8,
            check_price_ordering: true,
            check_duplicate_prices: true,
            validation_timeout_ms: 100,
        }
    }
}

/// What an error is about.
#[derive(Debug, Clone, Copy, PartialEq, Eq, Structural)]
pub enum ValidationErrorType {
    PriceOrdering,
    PricePrecision,
    QuantityPrecision,
    PriceRange,
    QuantityRange,
    SpreadTooLarge,
    DuplicatePrice,
    EmptyOrderbook,
    TooManyLevels,
    DataFormat,
    InvalidTimestamp,
}

/// What a warning is about.
#[derive(Debug, Clone, Copy, PartialEq, Eq, Structural)]
pub enum ValidationWarningType {
    LargeSpread,
    UnusualQuantity,
    PriceGap,
    FewLevels,
    DataDelay,
    InconsistentPrecision,
}

/// An error found in a book.
#[derive(Debug)]
pub struct ValidationError {
    pub error_type: ValidationErrorType,
    pub message: String,
    pub price: Option<Dec>,
    pub quantity: Option<Dec>,
    pub level_index: Option<usize>,
}

/// An error as the contracts see it.
pub struct ValidationErrorView {
    pub error_type: ValidationErrorType,
    pub message: Seq<char>,
    pub price: Option<Dec>,
    pub quantity: Option<Dec>,
    pub level_index: Option<usize>,
}

impl View for ValidationError {
    type V = ValidationErrorView;

    open spec fn view(&self) -> ValidationErrorView {
        ValidationErrorView {
            error_type: self.error_type,
            message: self.message@,
            price: self.price,
            quantity: self.quantity,
            level_index: self.level_index,
        }
    }
}

/// A warning about a book.
#[derive(Debug)]
pub struct ValidationWarning {
    pub warning_type: ValidationWarningType,
    pub message: String,
    pub details: Option<String>,
}

/// A warning as the contracts see it.
pub struct ValidationWarningView {
    pub warning_type: ValidationWarningType,
    pub message: Seq<char>,
    pub details: Option<Seq<char>>,
}

impl View for ValidationWarning {
    type V = ValidationWarningView;

    open spec fn view(&self) -> ValidationWarningView {
        ValidationWarningView {
            warning_type: self.warning_type,
            message: self.message@,
            details: match self.details {
                Some(d) => Some(d@),
                None => None,
            },
        }
    }
}

/// The views of a list of errors.
pub open spec fn error_views(s: Seq<ValidationError>) -> Seq<ValidationErrorView> {
    s.map_values(|e: ValidationError| e@)
}

/// The views of a list of warnings.
pub open spec fn warning_views(s: Seq<ValidationWarning>) -> Seq<ValidationWarningView> {
    s.map_values(|w: ValidationWarning| w@)
}

/// Summary figures of a book. Each is `None` where the book lacks what it needs, or where
/// the decimal arithmetic overflows.
#[derive(Debug, Clone, Copy, PartialEq, Eq, Structural)]
pub struct OrderbookStats {
    pub bid_levels: usize,
    pub ask_levels: usize,
    pub best_bid: Option<Dec>,
    pub best_ask: Option<Dec>,
    pub spread: Option<Dec>,
    pub spread_percent: Option<Dec>,
    pub total_bid_quantity: Option<Dec>,
    pub total_ask_quantity: Option<Dec>,
    pub mid_price: Option<Dec>,
    pub weighted_avg_price: Option<Dec>,
}

/// The outcome of one validation. Its time is in milliseconds.
#[derive(Debug)]
pub struct ValidationResult {
    pub is_valid: bool,
    pub validation_time_us: u64,
    pub errors: Vec<ValidationError>,
    pub warnings: Vec<ValidationWarning>,
    pub orderbook_stats: OrderbookStats,
    pub timestamp: u64,
}

/// An outcome as the contracts see it.
pub struct ValidationResultView {
    pub is_valid: bool,
    pub validation_time_us: u64,
    pub errors: Seq<ValidationErrorView>,
    pub warnings: Seq<ValidationWarningView>,
    pub orderbook_stats: OrderbookStats,
    pub timestamp: u64,
}

impl View for ValidationResult {
    type V = ValidationResultView;

    open spec fn view(&self) -> ValidationResultView {
        ValidationResultView {
            is_valid: self.is_valid,
            validation_time_us: self.validation_time_us,
            errors: error_views(self.errors@),
            warnings: warning_views(self.warnings@),
            orderbook_stats: self.orderbook_stats,
            timestamp: self.timestamp,
        }
    }
}

/// Counters of the validations so far; the mean time is rounded down at each step.
#[derive(Debug)]
pub struct ValidationStats {
    pub total_validations: u64,
    pub successful_validations: u64,
    pub failed_validations: u64,
    pub warning_count: u64,
    pub avg_validation_time_us: u64,
    pub last_validation_result: Option<ValidationResult>,
}

/// Counters as the contracts see them.
pub struct ValidationStatsView {
    pub total_validations: u64,
    pub successful_validations: u64,
    pub failed_validations: u64,
    pub warning_count: u64,
    pub avg_validation_time_us: u64,
    pub last_validation_result: Option<ValidationResultView>,
}

impl View for ValidationStats {
    type V = ValidationStatsView;

    open spec fn view(&self) -> ValidationStatsView {
        ValidationStatsView {
            total_validations: self.total_validations,
            successful_validations: self.successful_validations,
            failed_validations: self.failed_validations,
            warning_count: self.warning_count,
            avg_validation_time_us: self.avg_validation_time_us,
            last_validation_result: match self.last_validation_result {
                Some(r) => Some(r@),
                None => None,
            },
        }
    }
}

impl ValidationStats {
    /// No validation yet.
    pub open spec fn is_empty_stats(v: ValidationStatsView) -> bool {
        &&& v.total_validations == 0
        &&& v.successful_validations == 0
        &&& v.failed_validations == 0
        &&& v.warning_count == 0
        &&& v.avg_validation_time_us == 0
        &&& v.last_validation_result is None
    }
}

impl Default for ValidationStats {
    fn default() -> (r: Self)
        ensures
            ValidationStats::is_empty_stats(r@),
    {
        ValidationStats {
            total_validations: 0,
            successful_validations: 0,
            failed_validations: 0,
            warning_count: 0,
            avg_validation_time_us: 0,
            last_validation_result: None,
        }
    }
}

/// The elapsed nanoseconds that a validation saw: after the basic checks, before the
/// quantity checks, before the spread check, and at the end.
#[derive(Debug, Clone, Copy, PartialEq, Eq, Structural)]
pub struct ValidationTiming {
    pub after_basic_ns: u64,
    pub before_quantities_ns: u64,
    pub before_spread_ns: u64,
    pub total_ns: u64,
}

/// A summary of the validator.
#[derive(Debug)]
pub struct ValidationReport {
    pub config: OrderbookValidatorConfig,
    pub stats: ValidationStats,
    pub last_validation_time: Option<u64>,
    /// Successful validations per million validations, rounded down.
    pub success_rate_ppm: u64,
}

/// Checks order books and keeps counters.
#[derive(Debug)]
pub struct OrderbookValidator {
    config: OrderbookValidatorConfig,
    stats: ValidationStats,
    last_validation_time: Option<u64>,
}

// ---------------------------------------------------------------------------------------
// What each check finds.

/// An error with its fields.
pub open spec fn err_v(
    t: ValidationErrorType,
    message: Seq<char>,
    price: Option<Dec>,
    quantity: Option<Dec>,
    level_index: Option<usize>,
) -> ValidationErrorView {
    ValidationErrorView { error_type: t, message, price, quantity, level_index }
}

/// A warning with its fields.
pub open spec fn warn_v(t: ValidationWarningType, message: Seq<char>, details: Option<Seq<char>>) -> ValidationWarningView {
    ValidationWarningView { warning_type: t, message, details }
}

/// The decimal text of a natural number.
pub open spec fn ntext(n: int) -> Seq<char> {
    spec_decimal(n as nat)
}

/// The errors of the basic checks: an empty book, or too many levels.
pub open spec fn basic_errors(bids: Seq<OrderBookLevel>, asks: Seq<OrderBookLevel>, max_levels: usize) -> Seq<ValidationErrorView> {
    if bids.len() == 0 && asks.len() == 0 {
        seq![err_v(ValidationErrorType::EmptyOrderbook, "订单簿为空"@, None, None, None)]
    } else if bids.len() + asks.len() > max_levels {
        seq![err_v(
            ValidationErrorType::TooManyLevels,
            "档位数量过多: "@ + ntext((bids.len() + asks.len()) as int) + ", 最大允许: "@ + ntext(max_levels as int),
            None,
            None,
            None,
        )]
    } else {
        seq![]
    }
}

/// How long ago, in milliseconds, a book of time `ts` was made, as of `now`.
pub open spec fn delay_of(now: u64, ts: i64) -> int {
    if now >= ts { now - ts } else { 0 }
}

/// The warnings of the basic checks: few levels, and old data (more than five seconds).
pub open spec fn basic_warnings(bids: Seq<OrderBookLevel>, asks: Seq<OrderBookLevel>, ts: i64, now: u64) -> Seq<ValidationWarningView> {
    if bids.len() == 0 && asks.len() == 0 {
        seq![]
    } else {
        (if bids.len() < 5 || asks.len() < 5 {
            seq![warn_v(
                ValidationWarningType::FewLevels,
                "档位数量较少: bids="@ + ntext(bids.len() as int) + ", asks="@ + ntext(asks.len() as int),
                None,
            )]
        } else {
            seq![]
        }) + (if ts > 0 && delay_of(now, ts) > 5000 {
            seq![warn_v(
                ValidationWarningType::DataDelay,
                "数据延迟: "@ + ntext(delay_of(now, ts)) + "ms"@,
                Some("timestamp: "@ + ntext(ts as int) + ", now: "@ + ntext(now as int)),
            )]
        } else {
            seq![]
        })
    }
}

/// Whether level `i` is out of order: bids must fall, asks must rise.
pub open spec fn out_of_order(levels: Seq<OrderBookLevel>, i: int, is_bid: bool) -> bool {
    i > 0 && if is_bid {
        dec_le(levels[i - 1].price, levels[i].price)
    } else {
        dec_le(levels[i].price, levels[i - 1].price)
    }
}

/// The message of a level out of order.
pub open spec fn ordering_message(levels: Seq<OrderBookLevel>, i: int, is_bid: bool) -> Seq<char> {
    (if is_bid { "买单价格排序错误: 第"@ } else { "卖单价格排序错误: 第"@ }) + ntext(i + 1) + "档价格"@
        + spec_dec_text(levels[i].price) + (if is_bid { " >= 第"@ } else { " <= 第"@ }) + ntext(i) + "档价格"@
        + spec_dec_text(levels[i - 1].price)
}

/// The message of a price with too many fractional digits.
pub open spec fn price_precision_message(p: Dec, precision: u32, is_bid: bool) -> Seq<char> {
    (if is_bid { "买单价格精度错误: "@ } else { "卖单价格精度错误: "@ }) + spec_dec_text(p) + ", 期望精度: "@
        + ntext(precision as int)
}

/// The price errors of level `i`: its order, then its precision.
pub open spec fn level_price_errors(levels: Seq<OrderBookLevel>, i: int, is_bid: bool, precision: u32) -> Seq<ValidationErrorView> {
    let p = levels[i].price;
    (if out_of_order(levels, i, is_bid) {
        seq![err_v(ValidationErrorType::PriceOrdering, ordering_message(levels, i, is_bid), Some(p), None, Some(i as usize))]
    } else {
        seq![]
    }) + (if p.scale > precision {
        seq![err_v(ValidationErrorType::PricePrecision, price_precision_message(p, precision, is_bid), Some(p), None, Some(i as usize))]
    } else {
        seq![]
    })
}

/// The price errors of the first `n` levels of a side.
pub open spec fn price_errors(levels: Seq<OrderBookLevel>, n: int, is_bid: bool, precision: u32) -> Seq<ValidationErrorView>
    decreases n,
{
    if n <= 0 {
        seq![]
    } else {
        price_errors(levels, n - 1, is_bid, precision) + level_price_errors(levels, n - 1, is_bid, precision)
    }
}

/// Whether the price of level `i` already occurs before it.
pub open spec fn repeats_price(levels: Seq<OrderBookLevel>, i: int) -> bool {
    exists|j: int| 0 <= j < i && #[trigger] dec_eq(levels[j].price, levels[i].price)
}

/// The duplicate-price errors of the first `n` levels of a side named `side`.
pub open spec fn duplicate_errors(levels: Seq<OrderBookLevel>, n: int, side: Seq<char>) -> Seq<ValidationErrorView>
    decreases n,
{
    if n <= 0 {
        seq![]
    } else {
        let i = n - 1;
        duplicate_errors(levels, i, side) + if repeats_price(levels, i) {
            seq![err_v(
                ValidationErrorType::DuplicatePrice,
                side + "重复价格: "@ + spec_dec_text(levels[i].price),
                Some(levels[i].price),
                None,
                Some(i as usize),
            )]
        } else {
            seq![]
        }
    }
}

/// The quantity errors of level `i`: below the minimum, then too many fractional digits.
pub open spec fn level_quantity_errors(levels: Seq<OrderBookLevel>, i: int, is_bid: bool, c: OrderbookValidatorConfig) -> Seq<ValidationErrorView> {
    let q = levels[i].quantity;
    let p = levels[i].price;
    (if dec_lt(q, c.min_order_quantity) {
        seq![err_v(
            ValidationErrorType::QuantityRange,
            (if is_bid { "买单数量过小: "@ } else { "卖单数量过小: "@ }) + spec_dec_text(q) + ", 最小值: "@
                + spec_dec_text(c.min_order_quantity),
            Some(p),
            Some(q),
            Some(i as usize),
        )]
    } else {
        seq![]
    }) + (if q.scale > c.quantity_precision {
        seq![err_v(
            ValidationErrorType::QuantityPrecision,
            (if is_bid { "买单数量精度错误: "@ } else { "卖单数量精度错误: "@ }) + spec_dec_text(q) + ", 期望精度: "@
                + ntext(c.quantity_precision as int),
            Some(p),
            Some(q),
            Some(i as usize),
        )]
    } else {
        seq![]
    })
}

/// The quantity errors of the first `n` levels of a side.
pub open spec fn quantity_errors(levels: Seq<OrderBookLevel>, n: int, is_bid: bool, c: OrderbookValidatorConfig) -> Seq<ValidationErrorView>
    decreases n,
{
    if n <= 0 {
        seq![]
    } else {
        quantity_errors(levels, n - 1, is_bid, c) + level_quantity_errors(levels, n - 1, is_bid, c)
    }
}

/// The warning of level `i` with a quantity above the maximum, if it has one.
pub open spec fn level_quantity_warnings(levels: Seq<OrderBookLevel>, i: int, is_bid: bool, c: OrderbookValidatorConfig) -> Seq<ValidationWarningView> {
    let q = levels[i].quantity;
    let p = levels[i].price;
    if dec_lt(c.max_order_quantity, q) {
        seq![warn_v(
            ValidationWarningType::UnusualQuantity,
            (if is_bid { "买单数量异常大: "@ } else { "卖单数量异常大: "@ }) + spec_dec_text(q) + ", 最大值: "@
                + spec_dec_text(c.max_order_quantity),
            Some("price: "@ + spec_dec_text(p) + ", level: "@ + ntext(i)),
        )]
    } else {
        seq![]
    }
}

/// The quantity warnings of the first `n` levels of a side.
pub open spec fn quantity_warnings(levels: Seq<OrderBookLevel>, n: int, is_bid: bool, c: OrderbookValidatorConfig) -> Seq<ValidationWarningView>
    decreases n,
{
    if n <= 0 {
        seq![]
    } else {
        quantity_warnings(levels, n - 1, is_bid, c) + level_quantity_warnings(levels, n - 1, is_bid, c)
    }
}

/// The decimal `v` with scale 0.
pub open spec fn whole(v: i128) -> Dec {
    Dec { mantissa: v, scale: 0 }
}

/// The mid price `(bid + ask) / 2`.
pub open spec fn mid_of(bid: Dec, ask: Dec) -> Option<Dec> {
    match sum_of(bid, ask) {
        Some(s) => quotient_of(s, whole(2)),
        None => None,
    }
}

/// The spread as a percentage of the mid price, `spread / mid * 100`.
pub open spec fn percent_of(spread: Dec, mid: Dec) -> Option<Dec> {
    match quotient_of(spread, mid) {
        Some(q) => product_of(q, whole(100)),
        None => None,
    }
}

/// The spread percentage that the spread check compares: zero where the mid price is not
/// positive.
pub open spec fn checked_spread_percent(bid: Dec, ask: Dec) -> Option<Dec> {
    match (difference_of(ask, bid), mid_of(bid, ask)) {
        (Some(s), Some(m)) => if dec_lt(whole(0), m) { percent_of(s, m) } else { Some(whole(0)) },
        _ => None,
    }
}

/// What the spread check finds: crossed prices, a spread above the maximum, or a spread
/// above four fifths of it.
pub open spec fn spread_findings(bids: Seq<OrderBookLevel>, asks: Seq<OrderBookLevel>, max_spread: Dec) -> (Seq<ValidationErrorView>, Seq<ValidationWarningView>) {
    if bids.len() == 0 || asks.len() == 0 {
        (seq![], seq![])
    } else {
        let bb = bids[0].price;
        let ba = asks[0].price;
        if dec_le(ba, bb) {
            (seq![err_v(
                ValidationErrorType::PriceRange,
                "价格交叉: 最佳买价"@ + spec_dec_text(bb) + " >= 最佳卖价"@ + spec_dec_text(ba),
                None,
                None,
                None,
            )], seq![])
        } else {
            match checked_spread_percent(bb, ba) {
                None => (seq![], seq![]),
                Some(p) => if dec_lt(max_spread, p) {
                    (seq![err_v(
                        ValidationErrorType::SpreadTooLarge,
                        "价差过大: "@ + decimal_fixed_text(p.mantissa as int, p.scale as nat, 4) + "%, 最大允许: "@
                            + decimal_fixed_text(max_spread.mantissa as int, max_spread.scale as nat, 2) + "%"@,
                        None,
                        None,
                        None,
                    )], seq![])
                } else {
                    match product_of(max_spread, Dec { mantissa: 8, scale: 1 }) {
                        Some(t) => if dec_lt(t, p) {
                            (seq![], seq![warn_v(
                                ValidationWarningType::LargeSpread,
                                "价差较大: "@ + decimal_fixed_text(p.mantissa as int, p.scale as nat, 4) + "%"@,
                                Some("best_bid: "@ + spec_dec_text(bb) + ", best_ask: "@ + spec_dec_text(ba) + ", spread: "@
                                    + spec_dec_text(difference_of(ba, bb)->0)),
                            )])
                        } else {
                            (seq![], seq![])
                        },
                        None => (seq![], seq![]),
                    }
                },
            }
        }
    }
}

/// The sum of the first `n` quantities, from zero.
pub open spec fn quantity_total(levels: Seq<OrderBookLevel>, n: int) -> Option<Dec>
    decreases n,
{
    if n <= 0 {
        Some(whole(0))
    } else {
        match quantity_total(levels, n - 1) {
            Some(acc) => sum_of(acc, levels[n - 1].quantity),
            None => None,
        }
    }
}

/// The sum of price times quantity over the first `n` levels, from zero.
pub open spec fn value_total(levels: Seq<OrderBookLevel>, n: int) -> Option<Dec>
    decreases n,
{
    if n <= 0 {
        Some(whole(0))
    } else {
        match (value_total(levels, n - 1), product_of(levels[n - 1].price, levels[n - 1].quantity)) {
            (Some(acc), Some(v)) => sum_of(acc, v),
            _ => None,
        }
    }
}

/// The best price of a side.
pub open spec fn best_of(levels: Seq<OrderBookLevel>) -> Option<Dec> {
    if levels.len() > 0 { Some(levels[0].price) } else { None }
}

/// The summary figures of a book.
pub open spec fn spec_orderbook_stats(bids: Seq<OrderBookLevel>, asks: Seq<OrderBookLevel>) -> OrderbookStats {
    let bb = best_of(bids);
    let ba = best_of(asks);
    let spread = match (bb, ba) {
        (Some(b), Some(a)) => if dec_lt(b, a) { difference_of(a, b) } else { None },
        _ => None,
    };
    let tb = quantity_total(bids, bids.len() as int);
    let ta = quantity_total(asks, asks.len() as int);
    OrderbookStats {
        bid_levels: bids.len() as usize,
        ask_levels: asks.len() as usize,
        best_bid: bb,
        best_ask: ba,
        spread,
        spread_percent: match (spread, bb, ba) {
            (Some(s), Some(b), Some(a)) => match mid_of(b, a) {
                Some(m) => if dec_lt(whole(0), m) { percent_of(s, m) } else { None },
                None => None,
            },
            _ => None,
        },
        total_bid_quantity: tb,
        total_ask_quantity: ta,
        mid_price: match (bb, ba) {
            (Some(b), Some(a)) => mid_of(b, a),
            _ => None,
        },
        weighted_avg_price: if bids.len() > 0 && asks.len() > 0 {
            match (value_total(bids, bids.len() as int), value_total(asks, asks.len() as int), tb, ta) {
                (Some(bv), Some(av), Some(qb), Some(qa)) => match sum_of(qb, qa) {
                    Some(t) => if dec_lt(whole(0), t) {
                        match sum_of(bv, av) {
                            Some(v) => quotient_of(v, t),
                            None => None,
                        }
                    } else {
                        None
                    },
                    None => None,
                },
                _ => None,
            }
        } else {
            None
        },
    }
}

/// The error that the validation ran over its time.
pub open spec fn timeout_error() -> ValidationErrorView {
    err_v(ValidationErrorType::DataFormat, "验证超时"@, None, None, None)
}

/// The time allowed, in nanoseconds.
pub open spec fn timeout_ns(c: OrderbookValidatorConfig) -> int {
    c.validation_timeout_ms * 1_000_000
}

/// Everything a validation finds, given the elapsed times it saw: the basic checks, a
/// timeout, then (unless strict validation stops at the first errors) prices, duplicate
/// prices, quantities and the spread, the last two only while in time.
pub open spec fn spec_findings(
    c: OrderbookValidatorConfig,
    bids: Seq<OrderBookLevel>,
    asks: Seq<OrderBookLevel>,
    ts: i64,
    now: u64,
    t: ValidationTiming,
) -> (Seq<ValidationErrorView>, Seq<ValidationWarningView>) {
    let e1 = basic_errors(bids, asks, c.max_levels) + if t.after_basic_ns > timeout_ns(c) {
        seq![timeout_error()]
    } else {
        seq![]
    };
    let w1 = basic_warnings(bids, asks, ts, now);
    if e1.len() > 0 && c.strict_validation {
        (e1, w1)
    } else {
        let later = later_findings(c, bids, asks, t.before_quantities_ns, t.before_spread_ns);
        (e1 + later.0, w1 + later.1)
    }
}

/// What the checks after the basic ones find: prices, duplicate prices, and, while in
/// time at `t1` and `t2` elapsed nanoseconds, quantities and the spread.
pub open spec fn later_findings(
    c: OrderbookValidatorConfig,
    bids: Seq<OrderBookLevel>,
    asks: Seq<OrderBookLevel>,
    t1: u64,
    t2: u64,
) -> (Seq<ValidationErrorView>, Seq<ValidationWarningView>) {
    {
        let pe = if c.check_price_ordering {
            price_errors(bids, bids.len() as int, true, c.price_precision)
                + price_errors(asks, asks.len() as int, false, c.price_precision)
        } else {
            seq![]
        };
        let de = if c.check_duplicate_prices {
            duplicate_errors(bids, bids.len() as int, "买单"@) + duplicate_errors(asks, asks.len() as int, "卖单"@)
        } else {
            seq![]
        };
        let q_in_time = t1 <= timeout_ns(c);
        let qe = if q_in_time {
            quantity_errors(bids, bids.len() as int, true, c) + quantity_errors(asks, asks.len() as int, false, c)
        } else {
            seq![]
        };
        let qw = if q_in_time {
            quantity_warnings(bids, bids.len() as int, true, c) + quantity_warnings(asks, asks.len() as int, false, c)
        } else {
            seq![]
        };
        let s_in_time = t2 <= timeout_ns(c);
        let sp = if s_in_time { spread_findings(bids, asks, c.max_spread_percent) } else { (seq![], seq![]) };
        (pe + de + qe + sp.0, qw + sp.1)
    }
}

/// The outcome of a validation.
pub open spec fn spec_result(
    c: OrderbookValidatorConfig,
    bids: Seq<OrderBookLevel>,
    asks: Seq<OrderBookLevel>,
    ts: i64,
    now: u64,
    t: ValidationTiming,
) -> ValidationResultView {
    let f = spec_findings(c, bids, asks, ts, now, t);
    ValidationResultView {
        is_valid: f.0.len() == 0,
        validation_time_us: (t.total_ns / 1000) as u64,
        errors: f.0,
        warnings: f.1,
        orderbook_stats: spec_orderbook_stats(bids, asks),
        timestamp: now,
    }
}

/// The running mean after one more sample, rounded down.
pub open spec fn next_mean(avg: u64, n: u64, sample: u64) -> int {
    (avg * (n - 1) + sample) / (n as int)
}

/// The counters after recording `r`.
pub open spec fn stats_after(s: ValidationStatsView, r: ValidationResultView) -> ValidationStatsView {
    let n = (s.total_validations + 1) as u64;
    ValidationStatsView {
        total_validations: n,
        successful_validations: if r.is_valid { (s.successful_validations + 1) as u64 } else { s.successful_validations },
        failed_validations: if r.is_valid { s.failed_validations } else { (s.failed_validations + 1) as u64 },
        warning_count: (s.warning_count + r.warnings.len()) as u64,
        avg_validation_time_us: next_mean(s.avg_validation_time_us, n, r.validation_time_us) as u64,
        last_validation_result: Some(r),
    }
}


// ---------------------------------------------------------------------------------------
// The checks.

/// An error with its fields.
fn make_error(
    t: ValidationErrorType,
    message: String,
    price: Option<Dec>,
    quantity: Option<Dec>,
    level_index: Option<usize>,
) -> (r: ValidationError)
    ensures
        r@ == err_v(t, message@, price, quantity, level_index),
{
    ValidationError { error_type: t, message, price, quantity, level_index }
}

/// A warning with its fields.
fn make_warning(t: ValidationWarningType, message: String, details: Option<String>) -> (r: ValidationWarning)
    ensures
        r@ == warn_v(
            t,
            message@,
            match details {
                Some(d) => Some(d@),
                None => None,
            },
        ),
{
    ValidationWarning { warning_type: t, message, details }
}

/// The decimal text of a count.
fn count_text(n: usize) -> (r: String)
    ensures
        r@ == ntext(n as int),
{
    decimal_text(n as u128)
}

/// The basic checks: an empty book, too many levels, few levels, old data.
fn basic_checks(book: &OrderBookSnapshot, max_levels: usize, now: u64) -> (r: (Vec<ValidationError>, Vec<ValidationWarning>))
    ensures
        error_views(r.0@) == basic_errors(book.bids@, book.asks@, max_levels),
        warning_views(r.1@) == basic_warnings(book.bids@, book.asks@, book.timestamp, now),
{
    let mut errors: Vec<ValidationError> = Vec::new();
    let mut warnings: Vec<ValidationWarning> = Vec::new();
    let nb = book.bids.len();
    let na = book.asks.len();
    if nb == 0 && na == 0 {
        errors.push(make_error(ValidationErrorType::EmptyOrderbook, owned("订单簿为空"), None, None, None));
        assert(error_views(errors@) =~= basic_errors(book.bids@, book.asks@, max_levels));
        assert(warning_views(warnings@) =~= basic_warnings(book.bids@, book.asks@, book.timestamp, now));
        return (errors, warnings);
    }
    let total: u128 = nb as u128 + na as u128;
    if total > max_levels as u128 {
        let m = owned("档位数量过多: ").concat(decimal_text(total).as_str()).concat(", 最大允许: ").concat(
            count_text(max_levels).as_str(),
        );
        errors.push(make_error(ValidationErrorType::TooManyLevels, m, None, None, None));
    }
    assert(error_views(errors@) =~= basic_errors(book.bids@, book.asks@, max_levels));
    let ghost w0 = warning_views(warnings@);
    if nb < 5 || na < 5 {
        let m = owned("档位数量较少: bids=").concat(count_text(nb).as_str()).concat(", asks=").concat(
            count_text(na).as_str(),
        );
        warnings.push(make_warning(ValidationWarningType::FewLevels, m, None));
    }
    let ghost w1 = warning_views(warnings@);
    assert(w1 =~= w0 + if nb < 5 || na < 5 {
        seq![warn_v(
            ValidationWarningType::FewLevels,
            "档位数量较少: bids="@ + ntext(nb as int) + ", asks="@ + ntext(na as int),
            None,
        )]
    } else {
        seq![]
    });
    if book.timestamp > 0 {
        let ts = book.timestamp as u64;
        let delay = if now >= ts { now - ts } else { 0 };
        if delay > 5000 {
            let m = owned("数据延迟: ").concat(decimal_text(delay as u128).as_str()).concat("ms");
            let d = owned("timestamp: ").concat(decimal_text(ts as u128).as_str()).concat(", now: ").concat(
                decimal_text(now as u128).as_str(),
            );
            warnings.push(make_warning(ValidationWarningType::DataDelay, m, Some(d)));
        }
    }
    assert(warning_views(warnings@) =~= basic_warnings(book.bids@, book.asks@, book.timestamp, now));
    (errors, warnings)
}

/// The price checks of one side: order, then precision, level by level.
fn side_price_errors(levels: &Vec<OrderBookLevel>, is_bid: bool, precision: u32) -> (r: Vec<ValidationError>)
    requires
        levels_wf(levels@),
    ensures
        error_views(r@) == price_errors(levels@, levels@.len() as int, is_bid, precision),
{
    let mut r: Vec<ValidationError> = Vec::new();
    let n = levels.len();
    let mut i: usize = 0;
    while i < n
        invariant
            n == levels@.len(),
            i <= n,
            levels_wf(levels@),
            error_views(r@) == price_errors(levels@, i as int, is_bid, precision),
        decreases n - i,
    {
        let p = levels[i].price;
        let ghost before = error_views(r@);
        assert(levels@[i as int].wf());
        if i > 0 {
            let prev = levels[i - 1].price;
            assert(levels@[i - 1].wf());
            let c = dec_compare(prev, p);
            let bad = if is_bid { c <= 0 } else { c >= 0 };
            assert(bad == out_of_order(levels@, i as int, is_bid));
            if bad {
                let m = owned(if is_bid { "买单价格排序错误: 第" } else { "卖单价格排序错误: 第" }).concat(
                    count_text(i + 1).as_str(),
                ).concat("档价格").concat(dec_text(p).as_str()).concat(if is_bid { " >= 第" } else { " <= 第" }).concat(
                    count_text(i).as_str(),
                ).concat("档价格").concat(dec_text(prev).as_str());
                assert(m@ =~= ordering_message(levels@, i as int, is_bid));
                r.push(make_error(ValidationErrorType::PriceOrdering, m, Some(p), None, Some(i)));
            }
        }
        let ghost mid = error_views(r@);
        assert(mid =~= before + if out_of_order(levels@, i as int, is_bid) {
            seq![err_v(ValidationErrorType::PriceOrdering, ordering_message(levels@, i as int, is_bid), Some(p), None, Some(i))]
        } else {
            seq![]
        });
        if p.scale > precision {
            let m = owned(if is_bid { "买单价格精度错误: " } else { "卖单价格精度错误: " }).concat(dec_text(p).as_str()).concat(
                ", 期望精度: ",
            ).concat(decimal_text(precision as u128).as_str());
            r.push(make_error(ValidationErrorType::PricePrecision, m, Some(p), None, Some(i)));
        }
        assert(error_views(r@) =~= before + level_price_errors(levels@, i as int, is_bid, precision));
        i = i + 1;
    }
    r
}

/// The duplicate-price check of one side named `side`.
fn side_duplicate_errors(levels: &Vec<OrderBookLevel>, side: &str) -> (r: Vec<ValidationError>)
    requires
        levels_wf(levels@),
    ensures
        error_views(r@) == duplicate_errors(levels@, levels@.len() as int, side@),
{
    let mut r: Vec<ValidationError> = Vec::new();
    let n = levels.len();
    let mut i: usize = 0;
    while i < n
        invariant
            n == levels@.len(),
            i <= n,
            levels_wf(levels@),
            error_views(r@) == duplicate_errors(levels@, i as int, side@),
        decreases n - i,
    {
        let p = levels[i].price;
        assert(levels@[i as int].wf());
        let mut found = false;
        let mut j: usize = 0;
        while j < i
            invariant
                i < n,
                n == levels@.len(),
                j <= i,
                levels_wf(levels@),
                p == levels@[i as int].price,
                p.wf(),
                found == exists|k: int| 0 <= k < j && #[trigger] dec_eq(levels@[k].price, levels@[i as int].price),
            decreases i - j,
        {
            assert(levels@[j as int].wf());
            if dec_compare(levels[j].price, p) == 0 {
                found = true;
            }
            proof {
                if found {
                    if !(exists|k: int| 0 <= k < j && #[trigger] dec_eq(levels@[k].price, levels@[i as int].price)) {
                        assert(dec_eq(levels@[j as int].price, levels@[i as int].price));
                    }
                }
            }
            j = j + 1;
        }
        assert(found == repeats_price(levels@, i as int));
        let ghost before = error_views(r@);
        if found {
            let m = owned(side).concat("重复价格: ").concat(dec_text(p).as_str());
            r.push(make_error(ValidationErrorType::DuplicatePrice, m, Some(p), None, Some(i)));
        }
        assert(error_views(r@) =~= before + if repeats_price(levels@, i as int) {
            seq![err_v(
                ValidationErrorType::DuplicatePrice,
                side@ + "重复价格: "@ + spec_dec_text(levels@[i as int].price),
                Some(levels@[i as int].price),
                None,
                Some(i),
            )]
        } else {
            seq![]
        });
        i = i + 1;
    }
    r
}

/// The quantity checks of one side: errors below the minimum and for too many fractional
/// digits, warnings above the maximum.
fn side_quantity_checks(levels: &Vec<OrderBookLevel>, is_bid: bool, c: &OrderbookValidatorConfig) -> (r: (
    Vec<ValidationError>,
    Vec<ValidationWarning>,
))
    requires
        levels_wf(levels@),
        c.wf(),
    ensures
        error_views(r.0@) == quantity_errors(levels@, levels@.len() as int, is_bid, *c),
        warning_views(r.1@) == quantity_warnings(levels@, levels@.len() as int, is_bid, *c),
{
    let mut errors: Vec<ValidationError> = Vec::new();
    let mut warnings: Vec<ValidationWarning> = Vec::new();
    let n = levels.len();
    let mut i: usize = 0;
    while i < n
        invariant
            n == levels@.len(),
            i <= n,
            levels_wf(levels@),
            c.wf(),
            error_views(errors@) == quantity_errors(levels@, i as int, is_bid, *c),
            warning_views(warnings@) == quantity_warnings(levels@, i as int, is_bid, *c),
        decreases n - i,
    {
        let q = levels[i].quantity;
        let p = levels[i].price;
        assert(levels@[i as int].wf());
        let ghost e0 = error_views(errors@);
        let ghost w0 = warning_views(warnings@);
        if dec_compare(q, c.min_order_quantity) < 0 {
            let m = owned(if is_bid { "买单数量过小: " } else { "卖单数量过小: " }).concat(dec_text(q).as_str()).concat(
                ", 最小值: ",
            ).concat(dec_text(c.min_order_quantity).as_str());
            errors.push(make_error(ValidationErrorType::QuantityRange, m, Some(p), Some(q), Some(i)));
        }
        if dec_compare(q, c.max_order_quantity) > 0 {
            let m = owned(if is_bid { "买单数量异常大: " } else { "卖单数量异常大: " }).concat(dec_text(q).as_str()).concat(
                ", 最大值: ",
            ).concat(dec_text(c.max_order_quantity).as_str());
            let d = owned("price: ").concat(dec_text(p).as_str()).concat(", level: ").concat(count_text(i).as_str());
            warnings.push(make_warning(ValidationWarningType::UnusualQuantity, m, Some(d)));
        }
        let ghost e1 = error_views(errors@);
        assert(e1 =~= e0 + if dec_lt(q, c.min_order_quantity) {
            seq![err_v(
                ValidationErrorType::QuantityRange,
                (if is_bid { "买单数量过小: "@ } else { "卖单数量过小: "@ }) + spec_dec_text(q) + ", 最小值: "@
                    + spec_dec_text(c.min_order_quantity),
                Some(p),
                Some(q),
                Some(i),
            )]
        } else {
            seq![]
        });
        if q.scale > c.quantity_precision {
            let m = owned(if is_bid { "买单数量精度错误: " } else { "卖单数量精度错误: " }).concat(dec_text(q).as_str()).concat(
                ", 期望精度: ",
            ).concat(decimal_text(c.quantity_precision as u128).as_str());
            errors.push(make_error(ValidationErrorType::QuantityPrecision, m, Some(p), Some(q), Some(i)));
        }
        assert(error_views(errors@) =~= e0 + level_quantity_errors(levels@, i as int, is_bid, *c));
        assert(warning_views(warnings@) =~= w0 + level_quantity_warnings(levels@, i as int, is_bid, *c));
        i = i + 1;
    }
    (errors, warnings)
}

/// `rust_decimal`'s sum, with its name.
fn add_dec(a: Dec, b: Dec) -> (r: Option<Dec>)
    requires
        a.wf(),
        b.wf(),
    ensures
        r == sum_of(a, b),
        r matches Some(x) ==> x.wf(),
{
    let r = dec_checked_add(a, b);
    proof {
        lemma_lift_pair(r);
    }
    r
}

/// `rust_decimal`'s difference, with its name.
fn sub_dec(a: Dec, b: Dec) -> (r: Option<Dec>)
    requires
        a.wf(),
        b.wf(),
    ensures
        r == difference_of(a, b),
        r matches Some(x) ==> x.wf(),
{
    let r = dec_checked_sub(a, b);
    proof {
        lemma_lift_pair(r);
    }
    r
}

/// `rust_decimal`'s product, with its name.
fn mul_dec(a: Dec, b: Dec) -> (r: Option<Dec>)
    requires
        a.wf(),
        b.wf(),
    ensures
        r == product_of(a, b),
        r matches Some(x) ==> x.wf(),
{
    let r = dec_checked_mul(a, b);
    proof {
        lemma_lift_pair(r);
    }
    r
}

/// `rust_decimal`'s quotient, with its name.
fn div_dec(a: Dec, b: Dec) -> (r: Option<Dec>)
    requires
        a.wf(),
        b.wf(),
    ensures
        r == quotient_of(a, b),
        r matches Some(x) ==> x.wf(),
{
    let r = dec_checked_div(a, b);
    proof {
        lemma_lift_pair(r);
    }
    r
}

/// The mid price of two prices.
fn mid_price(bid: Dec, ask: Dec) -> (r: Option<Dec>)
    requires
        bid.wf(),
        ask.wf(),
    ensures
        r == mid_of(bid, ask),
        r matches Some(x) ==> x.wf(),
{
    match add_dec(bid, ask) {
        Some(s) => div_dec(s, Dec { mantissa: 2, scale: 0 }),
        None => None,
    }
}

/// A spread as a percentage of a mid price.
fn spread_percent(spread: Dec, mid: Dec) -> (r: Option<Dec>)
    requires
        spread.wf(),
        mid.wf(),
    ensures
        r == percent_of(spread, mid),
        r matches Some(x) ==> x.wf(),
{
    match div_dec(spread, mid) {
        Some(q) => mul_dec(q, Dec { mantissa: 100, scale: 0 }),
        None => None,
    }
}

/// The spread check.
fn spread_checks(book: &OrderBookSnapshot, max_spread: Dec) -> (r: (Vec<ValidationError>, Vec<ValidationWarning>))
    requires
        book.wf(),
        max_spread.wf(),
    ensures
        error_views(r.0@) == spread_findings(book.bids@, book.asks@, max_spread).0,
        warning_views(r.1@) == spread_findings(book.bids@, book.asks@, max_spread).1,
{
    let mut errors: Vec<ValidationError> = Vec::new();
    let mut warnings: Vec<ValidationWarning> = Vec::new();
    if book.bids.len() == 0 || book.asks.len() == 0 {
        assert(error_views(errors@) =~= seq![]);
        assert(warning_views(warnings@) =~= seq![]);
        return (errors, warnings);
    }
    let bb = book.bids[0].price;
    let ba = book.asks[0].price;
    assert(book.bids@[0].wf() && book.asks@[0].wf());
    if dec_compare(bb, ba) >= 0 {
        let m = owned("价格交叉: 最佳买价").concat(dec_text(bb).as_str()).concat(" >= 最佳卖价").concat(
            dec_text(ba).as_str(),
        );
        errors.push(make_error(ValidationErrorType::PriceRange, m, None, None, None));
        assert(error_views(errors@) =~= spread_findings(book.bids@, book.asks@, max_spread).0);
        assert(warning_views(warnings@) =~= spread_findings(book.bids@, book.asks@, max_spread).1);
        return (errors, warnings);
    }
    let spread = sub_dec(ba, bb);
    let mid = mid_price(bb, ba);
    let pct: Option<Dec> = match (spread, mid) {
        (Some(s), Some(m)) => if dec_compare(Dec { mantissa: 0, scale: 0 }, m) < 0 {
            spread_percent(s, m)
        } else {
            Some(Dec { mantissa: 0, scale: 0 })
        },
        _ => None,
    };
    assert(pct == checked_spread_percent(bb, ba));
    match pct {
        None => {},
        Some(p) => {
            if dec_compare(max_spread, p) < 0 {
                let m = owned("价差过大: ").concat(dec_fixed_text(p, 4).as_str()).concat("%, 最大允许: ").concat(
                    dec_fixed_text(max_spread, 2).as_str(),
                ).concat("%");
                errors.push(make_error(ValidationErrorType::SpreadTooLarge, m, None, None, None));
            } else {
                match mul_dec(max_spread, Dec { mantissa: 8, scale: 1 }) {
                    Some(t) => {
                        if dec_compare(t, p) < 0 {
                            let s = spread.unwrap();
                            let m = owned("价差较大: ").concat(dec_fixed_text(p, 4).as_str()).concat("%");
                            let d = owned("best_bid: ").concat(dec_text(bb).as_str()).concat(", best_ask: ").concat(
                                dec_text(ba).as_str(),
                            ).concat(", spread: ").concat(dec_text(s).as_str());
                            warnings.push(make_warning(ValidationWarningType::LargeSpread, m, Some(d)));
                        }
                    },
                    None => {},
                }
            }
        },
    }
    assert(error_views(errors@) =~= spread_findings(book.bids@, book.asks@, max_spread).0);
    assert(warning_views(warnings@) =~= spread_findings(book.bids@, book.asks@, max_spread).1);
    (errors, warnings)
}

/// The sum of the quantities of a side.
fn side_quantity_total(levels: &Vec<OrderBookLevel>) -> (r: Option<Dec>)
    requires
        levels_wf(levels@),
    ensures
        r == quantity_total(levels@, levels@.len() as int),
        r matches Some(x) ==> x.wf(),
{
    let mut acc: Option<Dec> = Some(Dec { mantissa: 0, scale: 0 });
    let n = levels.len();
    let mut i: usize = 0;
    while i < n
        invariant
            n == levels@.len(),
            i <= n,
            levels_wf(levels@),
            acc == quantity_total(levels@, i as int),
            acc matches Some(x) ==> x.wf(),
        decreases n - i,
    {
        assert(levels@[i as int].wf());
        acc = match acc {
            Some(a) => add_dec(a, levels[i].quantity),
            None => None,
        };
        i = i + 1;
    }
    acc
}

/// The sum of price times quantity over a side.
fn side_value_total(levels: &Vec<OrderBookLevel>) -> (r: Option<Dec>)
    requires
        levels_wf(levels@),
    ensures
        r == value_total(levels@, levels@.len() as int),
        r matches Some(x) ==> x.wf(),
{
    let mut acc: Option<Dec> = Some(Dec { mantissa: 0, scale: 0 });
    let n = levels.len();
    let mut i: usize = 0;
    while i < n
        invariant
            n == levels@.len(),
            i <= n,
            levels_wf(levels@),
            acc == value_total(levels@, i as int),
            acc matches Some(x) ==> x.wf(),
        decreases n - i,
    {
        assert(levels@[i as int].wf());
        let v = mul_dec(levels[i].price, levels[i].quantity);
        acc = match (acc, v) {
            (Some(a), Some(x)) => add_dec(a, x),
            _ => None,
        };
        i = i + 1;
    }
    acc
}

/// The summary figures of a book.
pub fn calculate_orderbook_stats(book: &OrderBookSnapshot) -> (r: OrderbookStats)
    requires
        book.wf(),
    ensures
        r == spec_orderbook_stats(book.bids@, book.asks@),
{
    let nb = book.bids.len();
    let na = book.asks.len();
    let bb: Option<Dec> = if nb > 0 { Some(book.bids[0].price) } else { None };
    let ba: Option<Dec> = if na > 0 { Some(book.asks[0].price) } else { None };
    proof {
        if nb > 0 {
            assert(book.bids@[0].wf());
        }
        if na > 0 {
            assert(book.asks@[0].wf());
        }
    }
    let spread: Option<Dec> = match (bb, ba) {
        (Some(b), Some(a)) => if dec_compare(b, a) < 0 { sub_dec(a, b) } else { None },
        _ => None,
    };
    let mid: Option<Dec> = match (bb, ba) {
        (Some(b), Some(a)) => mid_price(b, a),
        _ => None,
    };
    let pct: Option<Dec> = match (spread, mid) {
        (Some(s), Some(m)) => if dec_compare(Dec { mantissa: 0, scale: 0 }, m) < 0 { spread_percent(s, m) } else { None },
        _ => None,
    };
    let tb = side_quantity_total(&book.bids);
    let ta = side_quantity_total(&book.asks);
    let weighted: Option<Dec> = if nb > 0 && na > 0 {
        let bv = side_value_total(&book.bids);
        let av = side_value_total(&book.asks);
        match (bv, av, tb, ta) {
            (Some(x), Some(y), Some(qb), Some(qa)) => match add_dec(qb, qa) {
                Some(t) => if dec_compare(Dec { mantissa: 0, scale: 0 }, t) < 0 {
                    match add_dec(x, y) {
                        Some(v) => div_dec(v, t),
                        None => None,
                    }
                } else {
                    None
                },
                None => None,
            },
            _ => None,
        }
    } else {
        None
    };
    OrderbookStats {
        bid_levels: nb,
        ask_levels: na,
        best_bid: bb,
        best_ask: ba,
        spread,
        spread_percent: pct,
        total_bid_quantity: tb,
        total_ask_quantity: ta,
        mid_price: mid,
        weighted_avg_price: weighted,
    }
}


/// At most `n` quantity warnings come from `n` levels.
proof fn lemma_quantity_warnings_len(levels: Seq<OrderBookLevel>, n: int, is_bid: bool, c: OrderbookValidatorConfig)
    ensures
        quantity_warnings(levels, n, is_bid, c).len() <= if n < 0 { 0 } else { n },
    decreases n,
{
    if n > 0 {
        lemma_quantity_warnings_len(levels, n - 1, is_bid, c);
    }
}

/// A validation gives at most three warnings more than the book has levels.
proof fn lemma_warnings_bound(
    c: OrderbookValidatorConfig,
    bids: Seq<OrderBookLevel>,
    asks: Seq<OrderBookLevel>,
    ts: i64,
    now: u64,
    t: ValidationTiming,
)
    ensures
        spec_findings(c, bids, asks, ts, now, t).1.len() <= bids.len() + asks.len() + 3,
{
    lemma_quantity_warnings_len(bids, bids.len() as int, true, c);
    lemma_quantity_warnings_len(asks, asks.len() as int, false, c);
}

/// The running mean stays within the range of its inputs.
proof fn lemma_next_mean_bound(avg: u64, n: u64, sample: u64)
    requires
        n >= 1,
    ensures
        0 <= next_mean(avg, n, sample) <= u64::MAX,
{
    let m = u64::MAX as int;
    assert(avg * (n - 1) + sample <= m * n) by (nonlinear_arith)
        requires
            avg <= m,
            sample <= m,
            n >= 1;
    assert(0 <= avg * (n - 1)) by (nonlinear_arith)
        requires
            avg >= 0,
            n >= 1;
    assert((avg * (n - 1) + sample) / (n as int) <= m) by (nonlinear_arith)
        requires
            avg * (n - 1) + sample <= m * n,
            n >= 1;
}

impl ValidationError {
    /// A copy of this error.
    pub fn duplicate(&self) -> (r: Self)
        ensures
            r@ == self@,
    {
        ValidationError {
            error_type: self.error_type,
            message: owned(self.message.as_str()),
            price: self.price,
            quantity: self.quantity,
            level_index: self.level_index,
        }
    }
}

impl ValidationWarning {
    /// A copy of this warning.
    pub fn duplicate(&self) -> (r: Self)
        ensures
            r@ == self@,
    {
        let details = match &self.details {
            Some(d) => Some(owned(d.as_str())),
            None => None,
        };
        ValidationWarning { warning_type: self.warning_type, message: owned(self.message.as_str()), details }
    }
}

impl ValidationResult {
    /// A copy of this outcome.
    pub fn duplicate(&self) -> (r: Self)
        ensures
            r@ == self@,
    {
        let mut errors: Vec<ValidationError> = Vec::new();
        let mut i: usize = 0;
        while i < self.errors.len()
            invariant
                i <= self.errors@.len(),
                error_views(errors@) == error_views(self.errors@.take(i as int)),
            decreases self.errors@.len() - i,
        {
            let e = self.errors[i].duplicate();
            let ghost prev = errors@;
            errors.push(e);
            proof {
                assert(self.errors@.take(i + 1) =~= self.errors@.take(i as int).push(self.errors@[i as int]));
                assert(error_views(errors@) =~= error_views(prev).push(e@));
                assert(error_views(self.errors@.take(i + 1)) =~= error_views(self.errors@.take(i as int)).push(
                    self.errors@[i as int]@,
                ));
            }
            i = i + 1;
        }
        let mut warnings: Vec<ValidationWarning> = Vec::new();
        let mut j: usize = 0;
        while j < self.warnings.len()
            invariant
                j <= self.warnings@.len(),
                warning_views(warnings@) == warning_views(self.warnings@.take(j as int)),
            decreases self.warnings@.len() - j,
        {
            let w = self.warnings[j].duplicate();
            let ghost prev = warnings@;
            warnings.push(w);
            proof {
                assert(self.warnings@.take(j + 1) =~= self.warnings@.take(j as int).push(self.warnings@[j as int]));
                assert(warning_views(warnings@) =~= warning_views(prev).push(w@));
                assert(warning_views(self.warnings@.take(j + 1)) =~= warning_views(self.warnings@.take(j as int)).push(
                    self.warnings@[j as int]@,
                ));
            }
            j = j + 1;
        }
        assert(self.errors@.take(self.errors@.len() as int) =~= self.errors@);
        assert(self.warnings@.take(self.warnings@.len() as int) =~= self.warnings@);
        ValidationResult {
            is_valid: self.is_valid,
            validation_time_us: self.validation_time_us,
            errors,
            warnings,
            orderbook_stats: self.orderbook_stats,
            timestamp: self.timestamp,
        }
    }
}

impl ValidationStats {
    /// A copy of these counters.
    pub fn duplicate(&self) -> (r: Self)
        ensures
            r@ == self@,
    {
        let last = match &self.last_validation_result {
            Some(x) => Some(x.duplicate()),
            None => None,
        };
        ValidationStats {
            total_validations: self.total_validations,
            successful_validations: self.successful_validations,
            failed_validations: self.failed_validations,
            warning_count: self.warning_count,
            avg_validation_time_us: self.avg_validation_time_us,
            last_validation_result: last,
        }
    }
}

/// Where a validation takes its elapsed times from: given values, or the clock since a
/// start in nanoseconds.
enum Elapsed {
    Given(ValidationTiming),
    Clock(u64),
}

impl Elapsed {
    /// The elapsed time at check `stage` (0 to 3, in the order of `ValidationTiming`).
    fn read(&self, stage: u8) -> (r: u64)
        ensures
            self matches Elapsed::Given(t) ==> r == (if stage == 0 {
                t.after_basic_ns
            } else if stage == 1 {
                t.before_quantities_ns
            } else if stage == 2 {
                t.before_spread_ns
            } else {
                t.total_ns
            }),
    {
        match self {
            Elapsed::Given(t) => if stage == 0 {
                t.after_basic_ns
            } else if stage == 1 {
                t.before_quantities_ns
            } else if stage == 2 {
                t.before_spread_ns
            } else {
                t.total_ns
            },
            Elapsed::Clock(start) => {
                let now = now_nanos();
                if now >= *start {
                    now - *start
                } else {
                    0
                }
            },
        }
    }
}

/// The checks after the basic ones, reading the elapsed time before the quantity check
/// and before the spread check; returns the findings and the two elapsed times.
fn later_checks(book: &OrderBookSnapshot, c: &OrderbookValidatorConfig, elapsed: &Elapsed, limit: u128) -> (r: (
    Vec<ValidationError>,
    Vec<ValidationWarning>,
    u64,
    u64,
))
    requires
        book.wf(),
        c.wf(),
        limit == timeout_ns(*c),
    ensures
        error_views(r.0@) == later_findings(*c, book.bids@, book.asks@, r.2, r.3).0,
        warning_views(r.1@) == later_findings(*c, book.bids@, book.asks@, r.2, r.3).1,
        elapsed matches Elapsed::Given(t) ==> r.2 == t.before_quantities_ns && r.3 == t.before_spread_ns,
{
    let mut errors: Vec<ValidationError> = Vec::new();
    let mut warnings: Vec<ValidationWarning> = Vec::new();
    if c.check_price_ordering {
        let mut pb = side_price_errors(&book.bids, true, c.price_precision);
        let mut pa = side_price_errors(&book.asks, false, c.price_precision);
        errors.append(&mut pb);
        errors.append(&mut pa);
    }
    if c.check_duplicate_prices {
        let mut db = side_duplicate_errors(&book.bids, "买单");
        let mut da = side_duplicate_errors(&book.asks, "卖单");
        errors.append(&mut db);
        errors.append(&mut da);
    }
    let ghost e2 = errors@;
    let t1 = elapsed.read(1);
    if t1 as u128 <= limit {
        let (mut qeb, mut qwb) = side_quantity_checks(&book.bids, true, c);
        let (mut qea, mut qwa) = side_quantity_checks(&book.asks, false, c);
        errors.append(&mut qeb);
        errors.append(&mut qea);
        warnings.append(&mut qwb);
        warnings.append(&mut qwa);
    }
    let ghost e3 = errors@;
    let ghost w3 = warnings@;
    let t2 = elapsed.read(2);
    if t2 as u128 <= limit {
        let (mut se, mut sw) = spread_checks(book, c.max_spread_percent);
        errors.append(&mut se);
        warnings.append(&mut sw);
    }
    proof {
        let f = later_findings(*c, book.bids@, book.asks@, t1, t2);
        assert(error_views(errors@) =~= f.0);
        assert(warning_views(warnings@) =~= f.1);
    }
    (errors, warnings, t1, t2)
}

impl OrderbookValidator {
    /// The settings.
    pub closed spec fn cfg(&self) -> OrderbookValidatorConfig {
        self.config
    }

    /// The counters.
    pub closed spec fn counters(&self) -> ValidationStatsView {
        self.stats@
    }

    /// When the last validation started, in milliseconds.
    pub closed spec fn last_time(&self) -> Option<u64> {
        self.last_validation_time
    }

    /// The settings are within range, and every validation counted succeeded or failed.
    pub closed spec fn wf(&self) -> bool {
        &&& self.config.wf()
        &&& self.stats.successful_validations + self.stats.failed_validations == self.stats.total_validations
    }

    /// Every validation counted either succeeded or failed: the total is the sum of the
    /// two, in every state that the validator's own functions produce.
    pub proof fn lemma_counts_add_up(&self)
        requires
            self.wf(),
        ensures
            self.counters().successful_validations + self.counters().failed_validations == self.counters().total_validations,
    {
    }

    /// A validator with these settings and no validation yet.
    pub fn new(config: OrderbookValidatorConfig) -> (r: Self)
        requires
            config.wf(),
        ensures
            r.wf(),
            r.cfg() == config,
            ValidationStats::is_empty_stats(r.counters()),
            r.last_time() is None,
    {
        OrderbookValidator { config, stats: ValidationStats::default(), last_validation_time: None }
    }

    /// A validator with the default settings.
    pub fn with_default_config() -> (r: Self)
        ensures
            r.wf(),
            r.cfg() == spec_default_validator_config(),
            ValidationStats::is_empty_stats(r.counters()),
            r.last_time() is None,
    {
        OrderbookValidator::new(OrderbookValidatorConfig::default())
    }

    /// Runs the checks in order, taking elapsed times from `elapsed`, and records the
    /// outcome; returns it with the elapsed times that it used.
    fn run(&mut self, book: &OrderBookSnapshot, now: u64, elapsed: &Elapsed) -> (r: (ValidationResult, ValidationTiming))
        requires
            old(self).wf(),
            book.wf(),
            old(self).counters().total_validations < u64::MAX,
            old(self).counters().warning_count + book.bids@.len() + book.asks@.len() + 3 <= u64::MAX,
        ensures
            final(self).wf(),
            r.0@ == spec_result(old(self).cfg(), book.bids@, book.asks@, book.timestamp, now, r.1),
            final(self).counters() == stats_after(old(self).counters(), r.0@),
            final(self).cfg() == old(self).cfg(),
            final(self).last_time() == Some(now),
            elapsed matches Elapsed::Given(t) ==> r.1 == t,
    {
        let c = self.config;
        let limit: u128 = c.validation_timeout_ms as u128 * 1_000_000;
        let (mut errors, mut warnings) = basic_checks(book, c.max_levels, now);
        let t0 = elapsed.read(0);
        if t0 as u128 > limit {
            errors.push(make_error(ValidationErrorType::DataFormat, owned("验证超时"), None, None, None));
        }
        let ghost e1 = error_views(errors@);
        let ghost w1 = warning_views(warnings@);
        assert(e1 =~= basic_errors(book.bids@, book.asks@, c.max_levels) + if t0 > timeout_ns(c) {
            seq![timeout_error()]
        } else {
            seq![]
        });
        let t1: u64;
        let t2: u64;
        if errors.len() > 0 && c.strict_validation {
            t1 = elapsed.read(1);
            t2 = elapsed.read(2);
        } else {
            let (mut le, mut lw, a, b) = later_checks(book, &c, elapsed, limit);
            t1 = a;
            t2 = b;
            errors.append(&mut le);
            warnings.append(&mut lw);
            proof {
                let later = later_findings(c, book.bids@, book.asks@, t1, t2);
                assert(error_views(errors@) =~= e1 + later.0);
                assert(warning_views(warnings@) =~= w1 + later.1);
            }
        }
        let stats = calculate_orderbook_stats(book);
        let t3 = elapsed.read(3);
        let timing = ValidationTiming { after_basic_ns: t0, before_quantities_ns: t1, before_spread_ns: t2, total_ns: t3 };
        let result = ValidationResult {
            is_valid: errors.len() == 0,
            validation_time_us: t3 / 1000,
            errors,
            warnings,
            orderbook_stats: stats,
            timestamp: now,
        };
        proof {
            lemma_warnings_bound(c, book.bids@, book.asks@, book.timestamp, now, timing);
        }
        self.record(&result, now);
        (result, timing)
    }

    /// Counts an outcome started at `now`, and keeps a copy of it.
    fn record(&mut self, result: &ValidationResult, now: u64)
        requires
            old(self).wf(),
            old(self).counters().total_validations < u64::MAX,
            old(self).counters().warning_count + result.warnings@.len() <= u64::MAX,
            result.is_valid == (result.errors@.len() == 0),
        ensures
            final(self).wf(),
            final(self).counters() == stats_after(old(self).counters(), result@),
            final(self).cfg() == old(self).cfg(),
            final(self).last_time() == Some(now),
    {
        self.stats.total_validations = self.stats.total_validations + 1;
        self.last_validation_time = Some(now);
        if result.is_valid {
            self.stats.successful_validations = self.stats.successful_validations + 1;
        } else {
            self.stats.failed_validations = self.stats.failed_validations + 1;
        }
        self.stats.warning_count = self.stats.warning_count + result.warnings.len() as u64;
        let n = self.stats.total_validations;
        let avg = self.stats.avg_validation_time_us;
        let sample = result.validation_time_us;
        proof {
            lemma_next_mean_bound(avg, n, sample);
            assert(avg * (n - 1) <= 0xFFFF_FFFF_FFFF_FFFF * 0xFFFF_FFFF_FFFF_FFFF) by (nonlinear_arith)
                requires
                    avg <= 0xFFFF_FFFF_FFFF_FFFFu64,
                    n >= 1,
                    n <= 0xFFFF_FFFF_FFFF_FFFFu64;
        }
        let total: u128 = avg as u128 * (n - 1) as u128 + sample as u128;
        self.stats.avg_validation_time_us = (total / n as u128) as u64;
        self.stats.last_validation_result = Some(result.duplicate());
    }

    /// Validates a book at `now` (milliseconds), with the elapsed times of `timing`, and
    /// records the outcome.
    pub fn validate_orderbook_at(&mut self, book: &OrderBookSnapshot, now: u64, timing: ValidationTiming) -> (r: ValidationResult)
        requires
            old(self).wf(),
            book.wf(),
            old(self).counters().total_validations < u64::MAX,
            old(self).counters().warning_count + book.bids@.len() + book.asks@.len() + 3 <= u64::MAX,
        ensures
            final(self).wf(),
            r@ == spec_result(old(self).cfg(), book.bids@, book.asks@, book.timestamp, now, timing),
            final(self).counters() == stats_after(old(self).counters(), r@),
            final(self).cfg() == old(self).cfg(),
            final(self).last_time() == Some(now),
    {
        let (r, _) = self.run(book, now, &Elapsed::Given(timing));
        r
    }

    /// Validates a book now, by the system clock, and records the outcome. The outcome is
    /// that of `validate_orderbook_at` for the time and the elapsed times that the clock
    /// gave.
    pub fn validate_orderbook(&mut self, book: &OrderBookSnapshot) -> (r: ValidationResult)
        requires
            old(self).wf(),
            book.wf(),
            old(self).counters().total_validations < u64::MAX,
            old(self).counters().warning_count + book.bids@.len() + book.asks@.len() + 3 <= u64::MAX,
        ensures
            final(self).wf(),
            exists|now: u64, t: ValidationTiming|
                r@ == spec_result(old(self).cfg(), book.bids@, book.asks@, book.timestamp, now, t)
                && final(self).last_time() == Some(now),
            final(self).counters() == stats_after(old(self).counters(), r@),
            final(self).cfg() == old(self).cfg(),
    {
        let now = now_millis();
        let start = now_nanos();
        let (r, t) = self.run(book, now, &Elapsed::Clock(start));
        r
    }

    /// The quick check: the book is not empty, and its best prices do not cross.
    pub fn quick_validate(&mut self, book: &OrderBookSnapshot) -> (r: bool)
        requires
            book.wf(),
        ensures
            r == (!(book.bids@.len() == 0 && book.asks@.len() == 0) && !(book.bids@.len() > 0 && book.asks@.len() > 0
                && dec_le(book.asks@[0].price, book.bids@[0].price))),
            *final(self) == *old(self),
    {
        if book.bids.len() == 0 && book.asks.len() == 0 {
            return false;
        }
        if book.bids.len() > 0 && book.asks.len() > 0 {
            assert(book.bids@[0].wf() && book.asks@[0].wf());
            if dec_compare(book.bids[0].price, book.asks[0].price) >= 0 {
                return false;
            }
        }
        true
    }

    /// The counters.
    pub fn get_stats(&self) -> (r: &ValidationStats)
        ensures
            r@ == self.counters(),
            self.wf() ==> r.successful_validations + r.failed_validations == r.total_validations,
    {
        &self.stats
    }

    /// Clears the counters.
    pub fn reset_stats(&mut self)
        ensures
            final(self).wf() == old(self).cfg().wf(),
            ValidationStats::is_empty_stats(final(self).counters()),
            final(self).cfg() == old(self).cfg(),
            final(self).last_time() == old(self).last_time(),
    {
        self.stats = ValidationStats::default();
    }

    /// Replaces the settings.
    pub fn update_config(&mut self, new_config: OrderbookValidatorConfig)
        requires
            old(self).wf(),
            new_config.wf(),
        ensures
            final(self).wf(),
            final(self).cfg() == new_config,
            final(self).counters() == old(self).counters(),
            final(self).last_time() == old(self).last_time(),
    {
        self.config = new_config;
    }

    /// The settings.
    pub fn get_config(&self) -> (r: &OrderbookValidatorConfig)
        ensures
            *r == self.cfg(),
    {
        &self.config
    }

    /// A summary: settings, counters, the time of the last validation, and the share of
    /// successful validations in millionths (zero before any validation).
    pub fn generate_report(&self) -> (r: ValidationReport)
        requires
            self.wf(),
        ensures
            r.config == self.cfg(),
            r.stats@ == self.counters(),
            r.last_validation_time == self.last_time(),
            r.success_rate_ppm == if self.counters().total_validations > 0 {
                self.counters().successful_validations * 1_000_000 / self.counters().total_validations as int
            } else {
                0
            },
    {
        let total = self.stats.total_validations;
        let rate: u64 = if total > 0 {
            let x: u128 = self.stats.successful_validations as u128 * 1_000_000;
            proof {
                assert(self.stats.successful_validations * 1_000_000 / total as int <= 1_000_000) by (nonlinear_arith)
                    requires
                        self.stats.successful_validations <= total,
                        total > 0;
            }
            (x / total as u128) as u64
        } else {
            0
        };
        ValidationReport {
            config: self.config,
            stats: self.stats.duplicate(),
            last_validation_time: self.last_validation_time,
            success_rate_ppm: rate,
        }
    }
}

/// A book that fails the quick check is never valid by the full validation, as long as
/// the full validation reaches its spread check within the time limit: an empty book is an
/// error of the basic checks, and crossed best prices are an error of the spread check.
pub proof fn lemma_quick_check_failure_means_invalid(
    c: OrderbookValidatorConfig,
    bids: Seq<OrderBookLevel>,
    asks: Seq<OrderBookLevel>,
    ts: i64,
    now: u64,
    t: ValidationTiming,
)
    requires
        t.before_spread_ns <= timeout_ns(c),
        !(!(bids.len() == 0 && asks.len() == 0) && !(bids.len() > 0 && asks.len() > 0 && dec_le(asks[0].price, bids[0].price))),
    ensures
        !spec_result(c, bids, asks, ts, now, t).is_valid,
{
    let e1 = basic_errors(bids, asks, c.max_levels) + if t.after_basic_ns > timeout_ns(c) {
        seq![timeout_error()]
    } else {
        seq![]
    };
    if e1.len() == 0 {
        let later = later_findings(c, bids, asks, t.before_quantities_ns, t.before_spread_ns);
        assert(spread_findings(bids, asks, c.max_spread_percent).0.len() > 0);
        assert(later.0.len() > 0);
    }
}


/// Level `i` of the first `n` levels of a side, out of order, gives its ordering error
/// among the side's price errors.
proof fn lemma_price_errors_has_ordering(levels: Seq<OrderBookLevel>, n: int, is_bid: bool, precision: u32, i: int)
    requires
        0 < i < n,
        out_of_order(levels, i, is_bid),
    ensures
        exists|e: int| 0 <= e < price_errors(levels, n, is_bid, precision).len()
            && #[trigger] price_errors(levels, n, is_bid, precision)[e] == err_v(
                ValidationErrorType::PriceOrdering, ordering_message(levels, i, is_bid), Some(levels[i].price), None, Some(i as usize)),
    decreases n,
{
    let before = price_errors(levels, n - 1, is_bid, precision);
    let here = level_price_errors(levels, n - 1, is_bid, precision);
    assert(price_errors(levels, n, is_bid, precision) == before + here);
    let target = err_v(ValidationErrorType::PriceOrdering, ordering_message(levels, i, is_bid), Some(levels[i].price), None, Some(i as usize));
    if i == n - 1 {
        assert(here[0] == target);
        assert((before + here)[before.len() as int] == target);
    } else {
        lemma_price_errors_has_ordering(levels, n - 1, is_bid, precision, i);
        let e = choose|e: int| 0 <= e < before.len() && #[trigger] before[e] == target;
        assert((before + here)[e] == target);
    }
}

/// A book whose ask prices do not rise at level `i` (its price at most that of level
/// `i - 1`) is refused with a price-ordering error at that level, naming both prices, and
/// symmetrically a book whose bid prices do not fall at level `i`. This holds whenever
/// ordering is checked and the checks after the basic ones run: validation is not strict,
/// or the book is neither empty nor too large and the basic checks ended in time.
pub proof fn lemma_misordered_level_is_refused(
    c: OrderbookValidatorConfig,
    bids: Seq<OrderBookLevel>,
    asks: Seq<OrderBookLevel>,
    ts: i64,
    now: u64,
    t: ValidationTiming,
    is_bid: bool,
    i: int,
)
    requires
        c.check_price_ordering,
        !c.strict_validation || (bids.len() + asks.len() > 0 && bids.len() + asks.len() <= c.max_levels
            && t.after_basic_ns <= c.validation_timeout_ms * 1_000_000),
        is_bid ==> 0 < i < bids.len() && dec_le(bids[i - 1].price, bids[i].price),
        !is_bid ==> 0 < i < asks.len() && dec_le(asks[i].price, asks[i - 1].price),
    ensures
        ({
            let r = spec_result(c, bids, asks, ts, now, t);
            let side = if is_bid { bids } else { asks };
            &&& !r.is_valid
            &&& exists|e: int| 0 <= e < r.errors.len() && {
                let x = #[trigger] r.errors[e];
                &&& x.error_type == ValidationErrorType::PriceOrdering
                &&& x.level_index == Some(i as usize)
                &&& x.price == Some(side[i].price)
                &&& x.message == (if is_bid { "买单价格排序错误: 第"@ } else { "卖单价格排序错误: 第"@ }) + spec_decimal((i + 1) as nat)
                    + "档价格"@ + spec_dec_text(side[i].price) + (if is_bid { " >= 第"@ } else { " <= 第"@ })
                    + spec_decimal(i as nat) + "档价格"@ + spec_dec_text(side[i - 1].price)
            }
        }),
{
    let side = if is_bid { bids } else { asks };
    assert(out_of_order(side, i, is_bid));
    let pb = price_errors(bids, bids.len() as int, true, c.price_precision);
    let pa = price_errors(asks, asks.len() as int, false, c.price_precision);
    let target = err_v(ValidationErrorType::PriceOrdering, ordering_message(side, i, is_bid), Some(side[i].price), None, Some(i as usize));
    let e1 = basic_errors(bids, asks, c.max_levels) + if t.after_basic_ns > timeout_ns(c) {
        seq![timeout_error()]
    } else {
        seq![]
    };
    if c.strict_validation {
        assert(basic_errors(bids, asks, c.max_levels).len() == 0);
        assert(e1.len() == 0);
    }
    let later = later_findings(c, bids, asks, t.before_quantities_ns, t.before_spread_ns);
    let f = spec_findings(c, bids, asks, ts, now, t);
    assert(f.0 == e1 + later.0);
    let rest = later.0;
    let tail = later.0.subrange((pb + pa).len() as int, later.0.len() as int);
    assert(later.0 =~= (pb + pa) + tail);
    let k: int;
    if is_bid {
        lemma_price_errors_has_ordering(bids, bids.len() as int, true, c.price_precision, i);
        let e = choose|e: int| 0 <= e < pb.len() && #[trigger] pb[e] == target;
        k = e1.len() + e;
        assert((pb + pa)[e] == target);
    } else {
        lemma_price_errors_has_ordering(asks, asks.len() as int, false, c.price_precision, i);
        let e = choose|e: int| 0 <= e < pa.len() && #[trigger] pa[e] == target;
        k = e1.len() + pb.len() + e;
        assert((pb + pa)[pb.len() + e] == target);
    }
    assert(f.0[k] == target);
    assert(spec_result(c, bids, asks, ts, now, t).errors[k] == target);
}


/// Summing the first `k` quantities does not look past them.
proof fn lemma_quantity_total_prefix(levels: Seq<OrderBookLevel>, l: OrderBookLevel, k: int)
    requires
        0 <= k <= levels.len(),
    ensures
        quantity_total(levels.push(l), k) == quantity_total(levels, k),
    decreases k,
{
    if k > 0 {
        lemma_quantity_total_prefix(levels, l, k - 1);
        assert(levels.push(l)[k - 1] == levels[k - 1]);
    }
}

/// The total quantity of each side is the sum of that side's quantities alone: zero for
/// an empty side, the previous total plus the new level's quantity when a level is added
/// (by `rust_decimal`'s checked sum), and the same whatever the other side holds.
pub proof fn lemma_side_totals(
    bids: Seq<OrderBookLevel>,
    asks: Seq<OrderBookLevel>,
    other_bids: Seq<OrderBookLevel>,
    other_asks: Seq<OrderBookLevel>,
    l: OrderBookLevel,
)
    ensures
        spec_orderbook_stats(bids, Seq::empty()).total_ask_quantity == Some(Dec { mantissa: 0, scale: 0 }),
        spec_orderbook_stats(Seq::empty(), asks).total_bid_quantity == Some(Dec { mantissa: 0, scale: 0 }),
        spec_orderbook_stats(bids, asks.push(l)).total_ask_quantity == match spec_orderbook_stats(bids, asks).total_ask_quantity {
            Some(t) => sum_of(t, l.quantity),
            None => None,
        },
        spec_orderbook_stats(bids.push(l), asks).total_bid_quantity == match spec_orderbook_stats(bids, asks).total_bid_quantity {
            Some(t) => sum_of(t, l.quantity),
            None => None,
        },
        spec_orderbook_stats(other_bids, asks).total_ask_quantity == spec_orderbook_stats(bids, asks).total_ask_quantity,
        spec_orderbook_stats(bids, other_asks).total_bid_quantity == spec_orderbook_stats(bids, asks).total_bid_quantity,
{
    lemma_quantity_total_prefix(asks, l, asks.len() as int);
    lemma_quantity_total_prefix(bids, l, bids.len() as int);
    assert(asks.push(l)[asks.len() as int] == l);
    assert(bids.push(l)[bids.len() as int] == l);
}


/// Summing the first `k` values does not look past them.
proof fn lemma_value_total_prefix(levels: Seq<OrderBookLevel>, l: OrderBookLevel, k: int)
    requires
        0 <= k <= levels.len(),
    ensures
        value_total(levels.push(l), k) == value_total(levels, k),
    decreases k,
{
    if k > 0 {
        lemma_value_total_prefix(levels, l, k - 1);
        assert(levels.push(l)[k - 1] == levels[k - 1]);
    }
}

/// The weighted average price of a book with both sides is the total value (price times
/// quantity, over every level of both sides) over the total quantity of both sides, where
/// the total value of a side is zero when empty and grows by price times quantity with
/// each level; a book missing a side has none.
pub proof fn lemma_weighted_average(bids: Seq<OrderBookLevel>, asks: Seq<OrderBookLevel>, l: OrderBookLevel)
    ensures
        value_total(Seq::empty(), 0) == Some(Dec { mantissa: 0, scale: 0 }),
        value_total(asks.push(l), asks.len() + 1int) == match (value_total(asks, asks.len() as int), product_of(l.price, l.quantity)) {
            (Some(t), Some(v)) => sum_of(t, v),
            _ => None,
        },
        bids.len() == 0 || asks.len() == 0 ==> spec_orderbook_stats(bids, asks).weighted_avg_price is None,
        bids.len() > 0 && asks.len() > 0 ==> spec_orderbook_stats(bids, asks).weighted_avg_price == match (
            value_total(bids, bids.len() as int),
            value_total(asks, asks.len() as int),
            spec_orderbook_stats(bids, asks).total_bid_quantity,
            spec_orderbook_stats(bids, asks).total_ask_quantity,
        ) {
            (Some(bv), Some(av), Some(qb), Some(qa)) => match (sum_of(qb, qa), sum_of(bv, av)) {
                (Some(t), Some(v)) => if dec_lt(Dec { mantissa: 0, scale: 0 }, t) { quotient_of(v, t) } else { None },
                _ => None,
            },
            _ => None,
        },
{
    lemma_value_total_prefix(asks, l, asks.len() as int);
    assert(asks.push(l)[asks.len() as int] == l);
}


/// What is in either part of a concatenation is in the whole.
proof fn lemma_concat_contains<A>(a: Seq<A>, b: Seq<A>, x: A)
    ensures
        a.contains(x) ==> (a + b).contains(x),
        b.contains(x) ==> (a + b).contains(x),
{
    if a.contains(x) {
        let i = choose|i: int| 0 <= i < a.len() && a[i] == x;
        assert((a + b)[i] == x);
    }
    if b.contains(x) {
        let i = choose|i: int| 0 <= i < b.len() && b[i] == x;
        assert((a + b)[a.len() + i] == x);
    }
}

/// Whether the checks after the basic ones run: validation is not strict, or the book is
/// neither empty nor too large and the basic checks ended in time.
pub open spec fn later_checks_run(
    c: OrderbookValidatorConfig,
    bids: Seq<OrderBookLevel>,
    asks: Seq<OrderBookLevel>,
    t: ValidationTiming,
) -> bool {
    !c.strict_validation || (bids.len() + asks.len() > 0 && bids.len() + asks.len() <= c.max_levels
        && t.after_basic_ns <= c.validation_timeout_ms * 1_000_000)
}

/// An error of the later checks is an error of the result, which is then not valid.
proof fn lemma_later_error_surfaces(
    c: OrderbookValidatorConfig,
    bids: Seq<OrderBookLevel>,
    asks: Seq<OrderBookLevel>,
    ts: i64,
    now: u64,
    t: ValidationTiming,
    x: ValidationErrorView,
)
    requires
        later_checks_run(c, bids, asks, t),
        later_findings(c, bids, asks, t.before_quantities_ns, t.before_spread_ns).0.contains(x),
    ensures
        spec_result(c, bids, asks, ts, now, t).errors.contains(x),
        !spec_result(c, bids, asks, ts, now, t).is_valid,
{
    let e1 = basic_errors(bids, asks, c.max_levels) + if t.after_basic_ns > timeout_ns(c) {
        seq![timeout_error()]
    } else {
        seq![]
    };
    if c.strict_validation {
        assert(basic_errors(bids, asks, c.max_levels).len() == 0);
        assert(e1.len() == 0);
    }
    let later = later_findings(c, bids, asks, t.before_quantities_ns, t.before_spread_ns);
    lemma_concat_contains(e1, later.0, x);
}

/// Level `i` of the first `n` levels, priced with more fractional digits than allowed,
/// gives its precision error among the side's price errors.
proof fn lemma_price_errors_has_precision(levels: Seq<OrderBookLevel>, n: int, is_bid: bool, precision: u32, i: int)
    requires
        0 <= i < n,
        levels[i].price.scale > precision,
    ensures
        price_errors(levels, n, is_bid, precision).contains(err_v(ValidationErrorType::PricePrecision,
            price_precision_message(levels[i].price, precision, is_bid), Some(levels[i].price), None, Some(i as usize))),
    decreases n,
{
    let x = err_v(ValidationErrorType::PricePrecision, price_precision_message(levels[i].price, precision, is_bid),
        Some(levels[i].price), None, Some(i as usize));
    let before = price_errors(levels, n - 1, is_bid, precision);
    let here = level_price_errors(levels, n - 1, is_bid, precision);
    assert(price_errors(levels, n, is_bid, precision) == before + here);
    if i == n - 1 {
        let o = if out_of_order(levels, i, is_bid) { 1int } else { 0int };
        assert(here[o] == x);
        lemma_concat_contains(before, here, x);
    } else {
        lemma_price_errors_has_precision(levels, n - 1, is_bid, precision, i);
        lemma_concat_contains(before, here, x);
    }
}

/// Level `i` of the first `n` levels, whose price equals an earlier one's, gives its
/// duplicate error.
proof fn lemma_duplicate_errors_has(levels: Seq<OrderBookLevel>, n: int, side: Seq<char>, i: int, j: int)
    requires
        0 <= j < i < n,
        dec_eq(levels[j].price, levels[i].price),
    ensures
        duplicate_errors(levels, n, side).contains(err_v(ValidationErrorType::DuplicatePrice,
            side + "重复价格: "@ + spec_dec_text(levels[i].price), Some(levels[i].price), None, Some(i as usize))),
    decreases n,
{
    let x = err_v(ValidationErrorType::DuplicatePrice, side + "重复价格: "@ + spec_dec_text(levels[i].price),
        Some(levels[i].price), None, Some(i as usize));
    let before = duplicate_errors(levels, n - 1, side);
    if i == n - 1 {
        assert(repeats_price(levels, i));
        let here = seq![x];
        assert(duplicate_errors(levels, n, side) == before + here);
        assert(here[0] == x);
        lemma_concat_contains(before, here, x);
    } else {
        lemma_duplicate_errors_has(levels, n - 1, side, i, j);
        let here = if repeats_price(levels, n - 1) {
            seq![err_v(ValidationErrorType::DuplicatePrice, side + "重复价格: "@ + spec_dec_text(levels[n - 1].price),
                Some(levels[n - 1].price), None, Some((n - 1) as usize))]
        } else {
            seq![]
        };
        assert(duplicate_errors(levels, n, side) == before + here);
        lemma_concat_contains(before, here, x);
    }
}

/// Level `i` of the first `n` levels, with a quantity below the minimum, gives its range
/// error among the side's quantity errors.
proof fn lemma_quantity_errors_has_range(levels: Seq<OrderBookLevel>, n: int, is_bid: bool, c: OrderbookValidatorConfig, i: int)
    requires
        0 <= i < n,
        dec_lt(levels[i].quantity, c.min_order_quantity),
    ensures
        exists|e: int| 0 <= e < quantity_errors(levels, n, is_bid, c).len() && {
            let x = #[trigger] quantity_errors(levels, n, is_bid, c)[e];
            &&& x.error_type == ValidationErrorType::QuantityRange
            &&& x.level_index == Some(i as usize)
            &&& x.price == Some(levels[i].price)
            &&& x.quantity == Some(levels[i].quantity)
        },
    decreases n,
{
    let before = quantity_errors(levels, n - 1, is_bid, c);
    let here = level_quantity_errors(levels, n - 1, is_bid, c);
    assert(quantity_errors(levels, n, is_bid, c) == before + here);
    if i == n - 1 {
        assert((before + here)[before.len() as int] == here[0]);
    } else {
        lemma_quantity_errors_has_range(levels, n - 1, is_bid, c, i);
        let e = choose|e: int| 0 <= e < before.len() && {
            let x = #[trigger] before[e];
            &&& x.error_type == ValidationErrorType::QuantityRange
            &&& x.level_index == Some(i as usize)
            &&& x.price == Some(levels[i].price)
            &&& x.quantity == Some(levels[i].quantity)
        };
        assert((before + here)[e] == before[e]);
    }
}

/// An empty book is refused, and its first error says that it is empty; a book with more
/// levels than allowed (both sides together) is refused, its first error saying so.
pub proof fn lemma_empty_or_oversized_book_refused(
    c: OrderbookValidatorConfig,
    bids: Seq<OrderBookLevel>,
    asks: Seq<OrderBookLevel>,
    ts: i64,
    now: u64,
    t: ValidationTiming,
)
    ensures
        bids.len() == 0 && asks.len() == 0 ==> {
            &&& !spec_result(c, bids, asks, ts, now, t).is_valid
            &&& spec_result(c, bids, asks, ts, now, t).errors[0].error_type == ValidationErrorType::EmptyOrderbook
        },
        bids.len() + asks.len() > c.max_levels ==> {
            &&& !spec_result(c, bids, asks, ts, now, t).is_valid
            &&& spec_result(c, bids, asks, ts, now, t).errors[0].error_type == (if bids.len() == 0 && asks.len() == 0 {
                ValidationErrorType::EmptyOrderbook
            } else {
                ValidationErrorType::TooManyLevels
            })
        },
{
    let e1 = basic_errors(bids, asks, c.max_levels) + if t.after_basic_ns > timeout_ns(c) {
        seq![timeout_error()]
    } else {
        seq![]
    };
    let f = spec_findings(c, bids, asks, ts, now, t);
    if (bids.len() == 0 && asks.len() == 0) || bids.len() + asks.len() > c.max_levels {
        assert(e1[0] == basic_errors(bids, asks, c.max_levels)[0]);
        if !(e1.len() > 0 && c.strict_validation) {
            let later = later_findings(c, bids, asks, t.before_quantities_ns, t.before_spread_ns);
            assert((e1 + later.0)[0] == e1[0]);
        }
    }
}

/// A price with more fractional digits than the precision allows is refused with a
/// precision error at its level, whenever prices are checked and the later checks run.
pub proof fn lemma_imprecise_price_refused(
    c: OrderbookValidatorConfig,
    bids: Seq<OrderBookLevel>,
    asks: Seq<OrderBookLevel>,
    ts: i64,
    now: u64,
    t: ValidationTiming,
    is_bid: bool,
    i: int,
)
    requires
        c.check_price_ordering,
        later_checks_run(c, bids, asks, t),
        is_bid ==> 0 <= i < bids.len() && bids[i].price.scale > c.price_precision,
        !is_bid ==> 0 <= i < asks.len() && asks[i].price.scale > c.price_precision,
    ensures
        !spec_result(c, bids, asks, ts, now, t).is_valid,
        exists|e: int| 0 <= e < spec_result(c, bids, asks, ts, now, t).errors.len() && {
            let x = #[trigger] spec_result(c, bids, asks, ts, now, t).errors[e];
            &&& x.error_type == ValidationErrorType::PricePrecision
            &&& x.level_index == Some(i as usize)
            &&& x.price == Some((if is_bid { bids } else { asks })[i].price)
        },
{
    let side = if is_bid { bids } else { asks };
    let x = err_v(ValidationErrorType::PricePrecision, price_precision_message(side[i].price, c.price_precision, is_bid),
        Some(side[i].price), None, Some(i as usize));
    let pb = price_errors(bids, bids.len() as int, true, c.price_precision);
    let pa = price_errors(asks, asks.len() as int, false, c.price_precision);
    lemma_price_errors_has_precision(side, side.len() as int, is_bid, c.price_precision, i);
    lemma_concat_contains(pb, pa, x);
    let later = later_findings(c, bids, asks, t.before_quantities_ns, t.before_spread_ns);
    let de = if c.check_duplicate_prices {
        duplicate_errors(bids, bids.len() as int, "买单"@) + duplicate_errors(asks, asks.len() as int, "卖单"@)
    } else {
        seq![]
    };
    let rest = later.0.subrange((pb + pa).len() as int, later.0.len() as int);
    assert(later.0 =~= (pb + pa) + rest);
    lemma_concat_contains(pb + pa, rest, x);
    lemma_later_error_surfaces(c, bids, asks, ts, now, t, x);
    let r = spec_result(c, bids, asks, ts, now, t);
    let e = choose|e: int| 0 <= e < r.errors.len() && r.errors[e] == x;
    assert(r.errors[e] == x);
}

/// A price that repeats an earlier price of the same side is refused with a duplicate
/// error at its level, whenever duplicates are checked and the later checks run.
pub proof fn lemma_repeated_price_refused(
    c: OrderbookValidatorConfig,
    bids: Seq<OrderBookLevel>,
    asks: Seq<OrderBookLevel>,
    ts: i64,
    now: u64,
    t: ValidationTiming,
    is_bid: bool,
    j: int,
    i: int,
)
    requires
        c.check_duplicate_prices,
        later_checks_run(c, bids, asks, t),
        is_bid ==> 0 <= j < i < bids.len() && dec_eq(bids[j].price, bids[i].price),
        !is_bid ==> 0 <= j < i < asks.len() && dec_eq(asks[j].price, asks[i].price),
    ensures
        !spec_result(c, bids, asks, ts, now, t).is_valid,
        exists|e: int| 0 <= e < spec_result(c, bids, asks, ts, now, t).errors.len() && {
            let x = #[trigger] spec_result(c, bids, asks, ts, now, t).errors[e];
            &&& x.error_type == ValidationErrorType::DuplicatePrice
            &&& x.level_index == Some(i as usize)
            &&& x.price == Some((if is_bid { bids } else { asks })[i].price)
        },
{
    let side = if is_bid { bids } else { asks };
    let name = if is_bid { "买单"@ } else { "卖单"@ };
    let x = err_v(ValidationErrorType::DuplicatePrice, name + "重复价格: "@ + spec_dec_text(side[i].price),
        Some(side[i].price), None, Some(i as usize));
    let db = duplicate_errors(bids, bids.len() as int, "买单"@);
    let da = duplicate_errors(asks, asks.len() as int, "卖单"@);
    lemma_duplicate_errors_has(side, side.len() as int, name, i, j);
    lemma_concat_contains(db, da, x);
    let later = later_findings(c, bids, asks, t.before_quantities_ns, t.before_spread_ns);
    let pe = if c.check_price_ordering {
        price_errors(bids, bids.len() as int, true, c.price_precision)
            + price_errors(asks, asks.len() as int, false, c.price_precision)
    } else {
        seq![]
    };
    let rest = later.0.subrange((pe + (db + da)).len() as int, later.0.len() as int);
    assert(later.0 =~= (pe + (db + da)) + rest);
    lemma_concat_contains(pe, db + da, x);
    lemma_concat_contains(pe + (db + da), rest, x);
    lemma_later_error_surfaces(c, bids, asks, ts, now, t, x);
    let r = spec_result(c, bids, asks, ts, now, t);
    let e = choose|e: int| 0 <= e < r.errors.len() && r.errors[e] == x;
    assert(r.errors[e] == x);
}

/// A quantity below the minimum is refused with a range error at its level, whenever the
/// quantity checks start in time and the later checks run.
pub proof fn lemma_small_quantity_refused(
    c: OrderbookValidatorConfig,
    bids: Seq<OrderBookLevel>,
    asks: Seq<OrderBookLevel>,
    ts: i64,
    now: u64,
    t: ValidationTiming,
    is_bid: bool,
    i: int,
)
    requires
        later_checks_run(c, bids, asks, t),
        t.before_quantities_ns <= c.validation_timeout_ms * 1_000_000,
        is_bid ==> 0 <= i < bids.len() && dec_lt(bids[i].quantity, c.min_order_quantity),
        !is_bid ==> 0 <= i < asks.len() && dec_lt(asks[i].quantity, c.min_order_quantity),
    ensures
        !spec_result(c, bids, asks, ts, now, t).is_valid,
        exists|e: int| 0 <= e < spec_result(c, bids, asks, ts, now, t).errors.len() && {
            let x = #[trigger] spec_result(c, bids, asks, ts, now, t).errors[e];
            &&& x.error_type == ValidationErrorType::QuantityRange
            &&& x.level_index == Some(i as usize)
            &&& x.quantity == Some((if is_bid { bids } else { asks })[i].quantity)
        },
{
    let side = if is_bid { bids } else { asks };
    lemma_quantity_errors_has_range(side, side.len() as int, is_bid, c, i);
    let qs = quantity_errors(side, side.len() as int, is_bid, c);
    let e0 = choose|e: int| 0 <= e < qs.len() && {
        let x = #[trigger] qs[e];
        &&& x.error_type == ValidationErrorType::QuantityRange
        &&& x.level_index == Some(i as usize)
        &&& x.price == Some(side[i].price)
        &&& x.quantity == Some(side[i].quantity)
    };
    let x = qs[e0];
    assert(qs.contains(x));
    let qb = quantity_errors(bids, bids.len() as int, true, c);
    let qa = quantity_errors(asks, asks.len() as int, false, c);
    lemma_concat_contains(qb, qa, x);
    let later = later_findings(c, bids, asks, t.before_quantities_ns, t.before_spread_ns);
    let pe = if c.check_price_ordering {
        price_errors(bids, bids.len() as int, true, c.price_precision)
            + price_errors(asks, asks.len() as int, false, c.price_precision)
    } else {
        seq![]
    };
    let de = if c.check_duplicate_prices {
        duplicate_errors(bids, bids.len() as int, "买单"@) + duplicate_errors(asks, asks.len() as int, "卖单"@)
    } else {
        seq![]
    };
    let sp = if t.before_spread_ns <= timeout_ns(c) { spread_findings(bids, asks, c.max_spread_percent) } else { (seq![], seq![]) };
    assert(later.0 == pe + de + (qb + qa) + sp.0);
    lemma_concat_contains(pe + de, qb + qa, x);
    lemma_concat_contains(pe + de + (qb + qa), sp.0, x);
    lemma_later_error_surfaces(c, bids, asks, ts, now, t, x);
    let r = spec_result(c, bids, asks, ts, now, t);
    let e = choose|e: int| 0 <= e < r.errors.len() && r.errors[e] == x;
    assert(r.errors[e] == x);
}


/// A book whose best ask is at or below its best bid is refused with a price-range error,
/// whenever the spread check starts in time and the later checks run.
pub proof fn lemma_crossed_book_refused(
    c: OrderbookValidatorConfig,
    bids: Seq<OrderBookLevel>,
    asks: Seq<OrderBookLevel>,
    ts: i64,
    now: u64,
    t: ValidationTiming,
)
    requires
        later_checks_run(c, bids, asks, t),
        t.before_spread_ns <= c.validation_timeout_ms * 1_000_000,
        bids.len() > 0 && asks.len() > 0,
        dec_le(asks[0].price, bids[0].price),
    ensures
        !spec_result(c, bids, asks, ts, now, t).is_valid,
        exists|e: int| 0 <= e < spec_result(c, bids, asks, ts, now, t).errors.len()
            && (#[trigger] spec_result(c, bids, asks, ts, now, t).errors[e]).error_type == ValidationErrorType::PriceRange,
{
    let sp = spread_findings(bids, asks, c.max_spread_percent);
    let x = sp.0[0];
    assert(x.error_type == ValidationErrorType::PriceRange);
    assert(sp.0.contains(x));
    let later = later_findings(c, bids, asks, t.before_quantities_ns, t.before_spread_ns);
    let pe = if c.check_price_ordering {
        price_errors(bids, bids.len() as int, true, c.price_precision)
            + price_errors(asks, asks.len() as int, false, c.price_precision)
    } else {
        seq![]
    };
    let de = if c.check_duplicate_prices {
        duplicate_errors(bids, bids.len() as int, "买单"@) + duplicate_errors(asks, asks.len() as int, "卖单"@)
    } else {
        seq![]
    };
    let qe = if t.before_quantities_ns <= timeout_ns(c) {
        quantity_errors(bids, bids.len() as int, true, c) + quantity_errors(asks, asks.len() as int, false, c)
    } else {
        seq![]
    };
    assert(later.0 == pe + de + qe + sp.0);
    lemma_concat_contains(pe + de + qe, sp.0, x);
    lemma_later_error_surfaces(c, bids, asks, ts, now, t, x);
    let r = spec_result(c, bids, asks, ts, now, t);
    let e = choose|e: int| 0 <= e < r.errors.len() && r.errors[e] == x;
    assert(r.errors[e] == x);
}


/// The summary figures of a book: the level counts of each side; the best bid and best
/// ask are the first prices of their sides; the spread is the best ask less the best bid
/// when the ask is above the bid, and none otherwise; the mid price is half their sum;
/// and the spread percentage is the spread over a positive mid price, times one hundred.
pub proof fn lemma_book_figures(bids: Seq<OrderBookLevel>, asks: Seq<OrderBookLevel>)
    ensures
        ({
            let st = spec_orderbook_stats(bids, asks);
            let zero = Dec { mantissa: 0, scale: 0 };
            &&& st.bid_levels == bids.len() as usize
            &&& st.ask_levels == asks.len() as usize
            &&& st.best_bid == (if bids.len() > 0 { Some(bids[0].price) } else { None::<Dec> })
            &&& st.best_ask == (if asks.len() > 0 { Some(asks[0].price) } else { None::<Dec> })
            &&& (bids.len() == 0 || asks.len() == 0) ==> st.spread is None && st.mid_price is None && st.spread_percent is None
            &&& bids.len() > 0 && asks.len() > 0 ==> {
                let b = bids[0].price;
                let a = asks[0].price;
                &&& st.spread == (if dec_lt(b, a) { difference_of(a, b) } else { None::<Dec> })
                &&& st.mid_price == match sum_of(b, a) {
                    Some(total) => quotient_of(total, Dec { mantissa: 2, scale: 0 }),
                    None => None,
                }
                &&& st.spread_percent == match (st.spread, st.mid_price) {
                    (Some(sp), Some(m)) => if dec_lt(zero, m) {
                        match quotient_of(sp, m) {
                            Some(q) => product_of(q, Dec { mantissa: 100, scale: 0 }),
                            None => None,
                        }
                    } else {
                        None
                    },
                    _ => None,
                }
            }
        }),
{
}

/// A book that is not crossed but whose spread, as a percentage of the mid price (the
/// spread over half the sum of the best prices, times one hundred), exceeds the maximum
/// is refused with a spread error, whenever the spread check starts in time and the
/// later checks run.
pub proof fn lemma_wide_spread_refused(
    c: OrderbookValidatorConfig,
    bids: Seq<OrderBookLevel>,
    asks: Seq<OrderBookLevel>,
    ts: i64,
    now: u64,
    t: ValidationTiming,
    spread: Dec,
    total: Dec,
    mid: Dec,
    ratio: Dec,
    percent: Dec,
)
    requires
        later_checks_run(c, bids, asks, t),
        t.before_spread_ns <= c.validation_timeout_ms * 1_000_000,
        bids.len() > 0 && asks.len() > 0,
        dec_lt(bids[0].price, asks[0].price),
        difference_of(asks[0].price, bids[0].price) == Some(spread),
        sum_of(bids[0].price, asks[0].price) == Some(total),
        quotient_of(total, Dec { mantissa: 2, scale: 0 }) == Some(mid),
        dec_lt(Dec { mantissa: 0, scale: 0 }, mid),
        quotient_of(spread, mid) == Some(ratio),
        product_of(ratio, Dec { mantissa: 100, scale: 0 }) == Some(percent),
        dec_lt(c.max_spread_percent, percent),
    ensures
        !spec_result(c, bids, asks, ts, now, t).is_valid,
        exists|e: int| 0 <= e < spec_result(c, bids, asks, ts, now, t).errors.len()
            && (#[trigger] spec_result(c, bids, asks, ts, now, t).errors[e]).error_type == ValidationErrorType::SpreadTooLarge,
{
    let sp = spread_findings(bids, asks, c.max_spread_percent);
    assert(checked_spread_percent(bids[0].price, asks[0].price) == Some(percent));
    let x = sp.0[0];
    assert(x.error_type == ValidationErrorType::SpreadTooLarge);
    assert(sp.0.contains(x));
    let later = later_findings(c, bids, asks, t.before_quantities_ns, t.before_spread_ns);
    let pe = if c.check_price_ordering {
        price_errors(bids, bids.len() as int, true, c.price_precision)
            + price_errors(asks, asks.len() as int, false, c.price_precision)
    } else {
        seq![]
    };
    let de = if c.check_duplicate_prices {
        duplicate_errors(bids, bids.len() as int, "买单"@) + duplicate_errors(asks, asks.len() as int, "卖单"@)
    } else {
        seq![]
    };
    let qe = if t.before_quantities_ns <= timeout_ns(c) {
        quantity_errors(bids, bids.len() as int, true, c) + quantity_errors(asks, asks.len() as int, false, c)
    } else {
        seq![]
    };
    assert(later.0 == pe + de + qe + sp.0);
    lemma_concat_contains(pe + de + qe, sp.0, x);
    lemma_later_error_surfaces(c, bids, asks, ts, now, t, x);
    let r = spec_result(c, bids, asks, ts, now, t);
    let e = choose|e: int| 0 <= e < r.errors.len() && r.errors[e] == x;
    assert(r.errors[e] == x);
}

/// A book that passes validation is neither empty nor larger than allowed, and, when
/// prices are checked, its bid prices strictly fall and its ask prices strictly rise
/// from each level to the next.
pub proof fn lemma_valid_book_is_ordered(
    c: OrderbookValidatorConfig,
    bids: Seq<OrderBookLevel>,
    asks: Seq<OrderBookLevel>,
    ts: i64,
    now: u64,
    t: ValidationTiming,
)
    requires
        spec_result(c, bids, asks, ts, now, t).is_valid,
    ensures
        bids.len() + asks.len() > 0,
        bids.len() + asks.len() <= c.max_levels,
        c.check_price_ordering ==> forall|i: int| 0 < i < bids.len() ==> dec_lt(#[trigger] bids[i].price, bids[i - 1].price),
        c.check_price_ordering ==> forall|i: int| 0 < i < asks.len() ==> dec_lt(asks[i - 1].price, #[trigger] asks[i].price),
{
    lemma_empty_or_oversized_book_refused(c, bids, asks, ts, now, t);
    assert(later_checks_run(c, bids, asks, t));
    if c.check_price_ordering {
        assert forall|i: int| 0 < i < bids.len() implies dec_lt(#[trigger] bids[i].price, bids[i - 1].price) by {
            if !dec_lt(bids[i].price, bids[i - 1].price) {
                lemma_misordered_level_is_refused(c, bids, asks, ts, now, t, true, i);
            }
        }
        assert forall|i: int| 0 < i < asks.len() implies dec_lt(asks[i - 1].price, #[trigger] asks[i].price) by {
            if !dec_lt(asks[i - 1].price, asks[i].price) {
                lemma_misordered_level_is_refused(c, bids, asks, ts, now, t, false, i);
            }
        }
    }
}

} // verus!
