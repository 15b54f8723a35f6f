//! The decisions of the futures order-book feeds and of the connection watchdog: the
//! stream and topic names subscribed to, which incoming messages carry depth, and which
//! connections a watchdog tick sends back to reconnect. Idle times are milliseconds.
use vstd::prelude::*;
use crate::text::{
    contains_str, lower_case_of, owned, spec_contains, spec_starts_with, starts_with, str_equals, to_lower,
};

verus! {

/// What an incoming feed message is.
#[derive(Debug, Clone, Copy, PartialEq, Eq, Structural)]
pub enum FeedMessage {
    /// The answer to a subscription.
    SubscriptionReply,
    /// An error the exchange reports.
    ExchangeError,
    /// An order-book depth update.
    DepthUpdate,
    /// Anything else, dropped.
    Other,
}

/// The Binance futures stream of a symbol's twenty-level depth every 100 ms.
pub fn binance_depth_stream(symbol: &str) -> (r: String)
    ensures
        r@ == lower_case_of(symbol@) + "@depth20@100ms"@,
{
    to_lower(symbol).concat("@depth20@100ms")
}

/// The Bybit futures topic of a symbol's twenty-level order book.
pub fn bybit_orderbook_topic(symbol: &str) -> (r: String)
    ensures
        r@ == "orderbook.20."@ + symbol@,
{
    owned("orderbook.20.").concat(symbol)
}

/// A Binance futures message: a reply when it has a `result`, a depth update when its
/// stream is a twenty-level depth stream.
pub fn classify_binance_futures(has_result: bool, stream: Option<&str>) -> (r: FeedMessage)
    ensures
        has_result ==> r == FeedMessage::SubscriptionReply,
        !has_result ==> r == match stream {
            Some(s) => if spec_contains(s@, "@depth20"@) { FeedMessage::DepthUpdate } else { FeedMessage::Other },
            None => FeedMessage::Other,
        },
{
    if has_result {
        return FeedMessage::SubscriptionReply;
    }
    match stream {
        Some(s) => if contains_str(s, "@depth20") { FeedMessage::DepthUpdate } else { FeedMessage::Other },
        None => FeedMessage::Other,
    }
}

/// A Bybit futures message: a depth update when its topic is a twenty-level order book.
pub fn classify_bybit_futures(topic: Option<&str>) -> (r: FeedMessage)
    ensures
        r == match topic {
            Some(t) => if spec_starts_with(t@, "orderbook.20."@) { FeedMessage::DepthUpdate } else { FeedMessage::Other },
            None => FeedMessage::Other,
        },
{
    match topic {
        Some(t) => if starts_with(t, "orderbook.20.") { FeedMessage::DepthUpdate } else { FeedMessage::Other },
        None => FeedMessage::Other,
    }
}

/// The symbol of a Bybit order-book topic: the topic after its prefix.
pub fn bybit_topic_symbol(topic: &str) -> (r: String)
    requires
        spec_starts_with(topic@, "orderbook.20."@),
    ensures
        r@ == topic@.skip(13),
{
    proof {
        reveal_strlit("orderbook.20.");
    }
    let n = topic.unicode_len();
    owned(topic.substring_char(13, n))
}

/// An OKX futures message: by its `event` when it has one (a subscription reply, an
/// error, or nothing), else a depth update when it carries data.
pub fn classify_okx_futures(event: Option<&str>, has_data: bool) -> (r: FeedMessage)
    ensures
        r == match event {
            Some(e) => if e@ == "subscribe"@ {
                FeedMessage::SubscriptionReply
            } else if e@ == "error"@ {
                FeedMessage::ExchangeError
            } else {
                FeedMessage::Other
            },
            None => if has_data { FeedMessage::DepthUpdate } else { FeedMessage::Other },
        },
{
    match event {
        Some(e) => if str_equals(e, "subscribe") {
            FeedMessage::SubscriptionReply
        } else if str_equals(e, "error") {
            FeedMessage::ExchangeError
        } else {
            FeedMessage::Other
        },
        None => if has_data { FeedMessage::DepthUpdate } else { FeedMessage::Other },
    }
}

/// What one watchdog tick decides.
#[derive(Debug, Clone)]
pub struct HealthTick {
    /// No message at all for longer than the stale limit.
    pub global_alert: bool,
    /// No message at all for longer than the reconnect limit: every connection reconnects.
    pub reconnect_all: bool,
    /// The connections to reconnect, in order, each once.
    pub reconnect: Vec<String>,
    /// Whether this tick logs the counters (every twelfth).
    pub log_stats: bool,
}

/// Whether a connection idle for `idle` ms reconnects, given the global idle time.
pub open spec fn must_reconnect(global_idle: u64, idle: u64, force_limit: u64) -> bool {
    global_idle > force_limit || idle > force_limit
}

/// Whether `x` names a connection of `connections` that must reconnect.
pub open spec fn names_stale(connections: Seq<(String, u64)>, x: Seq<char>, global_idle: u64, force_limit: u64) -> bool {
    exists|j: int| 0 <= j < connections.len() && #[trigger] connections[j].0@ == x && must_reconnect(global_idle, connections[j].1, force_limit)
}

/// One watchdog tick, number `tick` (counting from one): alerts when idle beyond
/// `stale_limit`, reconnects every connection when the whole feed is idle beyond
/// `force_limit`, else each connection idle beyond it.
pub fn connection_health_tick(
    global_idle: u64,
    connections: &Vec<(String, u64)>,
    stale_limit: u64,
    force_limit: u64,
    tick: u32,
) -> (r: HealthTick)
    ensures
        r.global_alert == (global_idle > stale_limit),
        r.reconnect_all == (global_idle > force_limit),
        r.log_stats == (tick % 12 == 0),
        r.reconnect@.len() <= connections@.len(),
        forall|i: int| 0 <= i < r.reconnect@.len() ==> names_stale(connections@, (#[trigger] r.reconnect@[i])@, global_idle, force_limit),
        forall|j: int| 0 <= j < connections@.len() && must_reconnect(global_idle, #[trigger] connections@[j].1, force_limit)
            ==> exists|i: int| 0 <= i < r.reconnect@.len() && r.reconnect@[i]@ == connections@[j].0@,
{
    let n = connections.len();
    let mut out: Vec<String> = Vec::new();
    let mut i: usize = 0;
    while i < n
        invariant
            n == connections@.len(),
            i <= n,
            out@.len() <= i,
            forall|a: int| 0 <= a < out@.len() ==> names_stale(connections@, (#[trigger] out@[a])@, global_idle, force_limit),
            forall|j: int| 0 <= j < i && must_reconnect(global_idle, #[trigger] connections@[j].1, force_limit)
                ==> exists|a: int| 0 <= a < out@.len() && out@[a]@ == connections@[j].0@,
        decreases n - i,
    {
        let (id, idle) = (&connections[i].0, connections[i].1);
        if global_idle > force_limit || idle > force_limit {
            let ghost o = out@;
            out.push(owned(id.as_str()));
            proof {
                assert forall|a: int| 0 <= a < out@.len() implies names_stale(connections@, (#[trigger] out@[a])@, global_idle, force_limit) by {
                    if a == o.len() {
                        assert(out@[a]@ == connections@[i as int].0@);
                    } else {
                        assert(out@[a] == o[a]);
                    }
                }
                assert forall|j: int| 0 <= j < i + 1 && must_reconnect(global_idle, #[trigger] connections@[j].1, force_limit)
                    implies exists|a: int| 0 <= a < out@.len() && out@[a]@ == connections@[j].0@ by {
                    if j == i {
                        assert(out@[o.len() as int]@ == connections@[j].0@);
                    } else {
                        let a = choose|a: int| 0 <= a < o.len() && o[a]@ == connections@[j].0@;
                        assert(out@[a] == o[a]);
                    }
                }
            }
        }
        i = i + 1;
    }
    let r = HealthTick { global_alert: global_idle > stale_limit, reconnect_all: global_idle > force_limit, reconnect: out, log_stats: tick % 12 == 0 };
    assert forall|j: int| 0 <= j < connections@.len() && must_reconnect(global_idle, #[trigger] connections@[j].1, force_limit)
        implies exists|a: int| 0 <= a < r.reconnect@.len() && r.reconnect@[a]@ == connections@[j].0@ by {
        let a = choose|a: int| 0 <= a < out@.len() && out@[a]@ == connections@[j].0@;
        assert(r.reconnect@[a] == out@[a]);
    }
    r
}

} // verus!
