//! Batched subscriptions: requests wait in a queue ordered by priority and leave it in
//! batches of bounded size, spaced in time and bounded in number in flight; the outcome of
//! each batch is recorded per symbol. Times are milliseconds since the Unix epoch.
//!
//! Running a batch against an exchange is asynchronous work done by the caller: it takes a
//! batch from `begin_next_batch`, subscribes, and hands the outcome to `finish_batch`.
use std::collections::VecDeque;
use vstd::prelude::*;
use crate::clock::now_millis;
use crate::str_map::StrMap;
use crate::text::owned;
use crate::types::common::DataType;
use crate::types::config::{SubscriptionStatus, SubscriptionStatusView};
use crate::types::errors::ConnectorError;

verus! {

/// Settings of the batch manager. Durations are in milliseconds.
#[derive(Debug, Clone, Copy, PartialEq, Eq, Structural)]
pub struct BatchSubscriptionConfig {
    pub batch_size: usize,
    pub batch_delay_ms: u64,
    pub subscription_timeout_ms: u64,
    pub max_retries: u32,
    pub retry_delay_ms: u64,
    pub enabled: bool,
    pub max_concurrent_batches: usize,
}

impl Default for BatchSubscriptionConfig {
    fn default() -> (r: Self)
        ensures
            r == (BatchSubscriptionConfig {
                batch_size: 10,
                batch_delay_ms: 1000,
                subscription_timeout_ms: 5000,
                max_retries: 3,
                retry_delay_ms: 2000,
                enabled: true,
                max_concurrent_batches: 3,
            }),
    {
        BatchSubscriptionConfig {
            batch_size: 10,
            batch_delay_ms: 1000,
            subscription_timeout_ms: 5000,
            max_retries: 3,
            retry_delay_ms: 2000,
            enabled: true,
            max_concurrent_batches: 3,
        }
    }
}

/// One queued subscription. A smaller `priority` is served first.
#[derive(Debug, Clone)]
pub struct SubscriptionRequest {
    pub symbol: String,
    pub data_types: Vec<DataType>,
    pub request_time: u64,
    pub retry_count: u32,
    pub priority: u32,
}

/// Progress of a batch.
#[derive(Debug, Clone, PartialEq, Eq)]
pub enum BatchStatus {
    Pending,
    Processing,
    Completed,
    Failed(String),
    Retrying,
}

/// A batch in flight.
#[derive(Debug, Clone)]
pub struct BatchInfo {
    pub batch_id: String,
    pub requests: Vec<SubscriptionRequest>,
    pub start_time: u64,
    pub status: BatchStatus,
    pub retry_count: u32,
}

/// A queued request as values.
pub struct SubscriptionRequestView {
    pub symbol: Seq<char>,
    pub data_types: Seq<DataType>,
    pub request_time: u64,
    pub retry_count: u32,
    pub priority: u32,
}

impl View for SubscriptionRequest {
    type V = SubscriptionRequestView;

    open spec fn view(&self) -> SubscriptionRequestView {
        SubscriptionRequestView {
            symbol: self.symbol@,
            data_types: self.data_types@,
            request_time: self.request_time,
            retry_count: self.retry_count,
            priority: self.priority,
        }
    }
}

/// The values of a list of requests.
pub open spec fn requests_view(s: Seq<SubscriptionRequest>) -> Seq<SubscriptionRequestView> {
    s.map_values(|q: SubscriptionRequest| q@)
}

/// What is known of a batch in flight: its identifier, its requests, when it started,
/// its progress and how often it was retried.
pub struct BatchInfoView {
    pub batch_id: Seq<char>,
    pub requests: Seq<SubscriptionRequestView>,
    pub start_time: u64,
    pub status: BatchStatus,
    pub retry_count: u32,
}

impl View for BatchInfo {
    type V = BatchInfoView;

    open spec fn view(&self) -> BatchInfoView {
        BatchInfoView {
            batch_id: self.batch_id@,
            requests: requests_view(self.requests@),
            start_time: self.start_time,
            status: self.status,
            retry_count: self.retry_count,
        }
    }
}

/// The record of a batch `id` of the requests `reqs` that has just started at `now`.
pub open spec fn spec_started_batch(id: Seq<char>, reqs: Seq<SubscriptionRequestView>, now: u64) -> BatchInfoView {
    BatchInfoView { batch_id: id, requests: reqs, start_time: now, status: BatchStatus::Processing, retry_count: 0 }
}

/// Copies a list of data types.
pub fn copy_data_types(v: &Vec<DataType>) -> (r: Vec<DataType>)
    ensures
        r@ == v@,
{
    let mut out: Vec<DataType> = Vec::new();
    let mut i: usize = 0;
    while i < v.len()
        invariant
            i <= v@.len(),
            out@ == v@.take(i as int),
        decreases v@.len() - i,
    {
        out.push(v[i]);
        proof {
            assert(v@.take(i + 1) =~= v@.take(i as int).push(v@[i as int]));
        }
        i = i + 1;
    }
    assert(v@.take(v@.len() as int) =~= v@);
    out
}

/// Copies a request.
pub fn copy_request(q: &SubscriptionRequest) -> (r: SubscriptionRequest)
    ensures
        r@ == q@,
{
    SubscriptionRequest {
        symbol: q.symbol.clone(),
        data_types: copy_data_types(&q.data_types),
        request_time: q.request_time,
        retry_count: q.retry_count,
        priority: q.priority,
    }
}

/// Copies a list of requests.
pub fn copy_requests(v: &Vec<SubscriptionRequest>) -> (r: Vec<SubscriptionRequest>)
    ensures
        requests_view(r@) == requests_view(v@),
{
    let mut out: Vec<SubscriptionRequest> = Vec::new();
    let mut i: usize = 0;
    while i < v.len()
        invariant
            i <= v@.len(),
            requests_view(out@) == requests_view(v@.take(i as int)),
        decreases v@.len() - i,
    {
        let ghost o0 = out@;
        out.push(copy_request(&v[i]));
        proof {
            assert(requests_view(out@) =~= requests_view(o0).push(v@[i as int]@));
            assert(requests_view(v@.take(i + 1)) =~= requests_view(v@.take(i as int)).push(v@[i as int]@));
        }
        i = i + 1;
    }
    assert(v@.take(v@.len() as int) =~= v@);
    out
}

/// Counters of the manager. The average batch time is the whole milliseconds of the mean.
#[derive(Debug, Clone, Copy, PartialEq, Eq, Structural)]
pub struct BatchSubscriptionStats {
    pub total_requests: u64,
    pub successful_subscriptions: u64,
    pub failed_subscriptions: u64,
    pub total_batches: u64,
    pub avg_batch_time_ms: u64,
    pub queue_length: usize,
    pub active_batches: usize,
}

impl Default for BatchSubscriptionStats {
    fn default() -> (r: Self)
        ensures
            r == spec_zero_stats(),
    {
        BatchSubscriptionStats {
            total_requests: 0,
            successful_subscriptions: 0,
            failed_subscriptions: 0,
            total_batches: 0,
            avg_batch_time_ms: 0,
            queue_length: 0,
            active_batches: 0,
        }
    }
}

/// All counters at zero.
pub open spec fn spec_zero_stats() -> BatchSubscriptionStats {
    BatchSubscriptionStats {
        total_requests: 0,
        successful_subscriptions: 0,
        failed_subscriptions: 0,
        total_batches: 0,
        avg_batch_time_ms: 0,
        queue_length: 0,
        active_batches: 0,
    }
}

/// Outcome of one batch.
#[derive(Debug, Clone)]
pub struct BatchSubscriptionResult {
    pub batch_id: String,
    pub total_requests: usize,
    pub successful: usize,
    pub failed: usize,
    pub processing_time_ms: u64,
    pub failed_symbols: Vec<(String, String)>,
}

/// What the exchange answered for a batch: one entry per symbol (symbol, success, reason),
/// an error for the whole batch, or no answer in time.
#[derive(Debug, Clone)]
pub enum BatchOutcome {
    Answered(Vec<(String, bool, Option<String>)>),
    Error(String),
    TimedOut,
}

/// The mutable state of the manager.
#[derive(Debug)]
pub struct BatchSubscriptionState {
    pub pending_queue: VecDeque<SubscriptionRequest>,
    pub active_batches: StrMap<BatchInfo>,
    pub subscription_status: StrMap<SubscriptionStatus>,
    pub stats: BatchSubscriptionStats,
    pub last_batch_time: Option<u64>,
    pub total_batch_time_ms: u64,
}

/// Whether `pos` is where a request of priority `p` goes: after every request of priority
/// at most `p`, before the first of a larger one.
pub open spec fn is_insert_pos(q: Seq<SubscriptionRequest>, p: u32, pos: int) -> bool {
    &&& 0 <= pos <= q.len()
    &&& forall|j: int| 0 <= j < pos ==> #[trigger] q[j].priority <= p
    &&& pos < q.len() ==> q[pos].priority > p
}

/// `after` is `before` with `req` placed where its priority puts it.
pub open spec fn spec_enqueued(before: Seq<SubscriptionRequest>, after: Seq<SubscriptionRequest>, req: SubscriptionRequest) -> bool {
    exists|pos: int| #[trigger] is_insert_pos(before, req.priority, pos) && after == before.insert(pos, req)
}

/// The queue is ordered by priority.
pub open spec fn is_priority_sorted(q: Seq<SubscriptionRequest>) -> bool {
    forall|i: int, j: int| 0 <= i <= j < q.len() ==> #[trigger] q[i].priority <= #[trigger] q[j].priority
}

/// Whether some request in `reqs` is for symbol `k`.
pub open spec fn spec_mentions(reqs: Seq<SubscriptionRequest>, k: Seq<char>) -> bool {
    exists|i: int| 0 <= i < reqs.len() && #[trigger] reqs[i].symbol@ == k
}

/// `m` with every symbol of `reqs` set to `s`.
pub open spec fn spec_mark_all(
    m: Map<Seq<char>, SubscriptionStatusView>,
    reqs: Seq<SubscriptionRequest>,
    s: SubscriptionStatusView,
) -> Map<Seq<char>, SubscriptionStatusView> {
    Map::new(
        |k: Seq<char>| m.contains_key(k) || spec_mentions(reqs, k),
        |k: Seq<char>| if spec_mentions(reqs, k) { s } else { m[k] },
    )
}

/// The index of the last answer for symbol `k`.
pub open spec fn spec_last_answer(answers: Seq<(String, bool, Option<String>)>, k: Seq<char>) -> int {
    choose|i: int|
        0 <= i < answers.len() && answers[i].0@ == k && forall|j: int| i < j < answers.len() ==> #[trigger] answers[j].0@ != k
}

/// Whether some answer is for symbol `k`.
pub open spec fn spec_answered(answers: Seq<(String, bool, Option<String>)>, k: Seq<char>) -> bool {
    exists|i: int| 0 <= i < answers.len() && #[trigger] answers[i].0@ == k
}

/// The state a symbol ends in after a batch was answered: its last answer decides; a
/// failure without a reason reads 未知错误, a symbol without an answer 没有返回结果.
pub open spec fn spec_answer_status(answers: Seq<(String, bool, Option<String>)>, k: Seq<char>) -> SubscriptionStatusView {
    if spec_answered(answers, k) {
        let a = answers[spec_last_answer(answers, k)];
        if a.1 {
            SubscriptionStatusView::Active
        } else {
            match a.2 {
                Some(r) => SubscriptionStatusView::Failed(r@),
                None => SubscriptionStatusView::Failed("未知错误"@),
            }
        }
    } else {
        SubscriptionStatusView::Failed("没有返回结果"@)
    }
}

/// `m` with every symbol of `reqs` set to the state its answer gives.
pub open spec fn spec_apply_answers(
    m: Map<Seq<char>, SubscriptionStatusView>,
    reqs: Seq<SubscriptionRequest>,
    answers: Seq<(String, bool, Option<String>)>,
) -> Map<Seq<char>, SubscriptionStatusView> {
    Map::new(
        |k: Seq<char>| m.contains_key(k) || spec_mentions(reqs, k),
        |k: Seq<char>| if spec_mentions(reqs, k) { spec_answer_status(answers, k) } else { m[k] },
    )
}

/// How many of `reqs` end active.
pub open spec fn spec_count_active(
    reqs: Seq<SubscriptionRequest>,
    answers: Seq<(String, bool, Option<String>)>,
) -> nat
    decreases reqs.len(),
{
    if reqs.len() == 0 {
        0
    } else {
        spec_count_active(reqs.drop_last(), answers) + if spec_answer_status(answers, reqs.last().symbol@)
            == SubscriptionStatusView::Active {
            1nat
        } else {
            0nat
        }
    }
}

/// The (symbol, reason) of each of `reqs` that ends failed, in order.
pub open spec fn spec_failures(
    reqs: Seq<SubscriptionRequest>,
    answers: Seq<(String, bool, Option<String>)>,
) -> Seq<(Seq<char>, Seq<char>)>
    decreases reqs.len(),
{
    if reqs.len() == 0 {
        Seq::empty()
    } else {
        let rest = spec_failures(reqs.drop_last(), answers);
        match spec_answer_status(answers, reqs.last().symbol@) {
            SubscriptionStatusView::Failed(r) => rest.push((reqs.last().symbol@, r)),
            _ => rest,
        }
    }
}

/// The (symbol, reason) pairs of a list of failures, as characters.
pub open spec fn spec_pairs_view(v: Seq<(String, String)>) -> Seq<(Seq<char>, Seq<char>)> {
    v.map_values(|p: (String, String)| (p.0@, p.1@))
}

/// Failed requests of a batch that failed as a whole, each with the batch's reason.
pub open spec fn spec_all_failed(reqs: Seq<SubscriptionRequest>, reason: Seq<char>) -> Seq<(Seq<char>, Seq<char>)> {
    reqs.map_values(|r: SubscriptionRequest| (r.symbol@, reason))
}

/// Whether a batch may start at `now`: the manager is on, requests wait, fewer batches
/// than allowed are in flight, and the pause since the last batch has passed.
pub open spec fn spec_batch_due(
    c: BatchSubscriptionConfig,
    queue_len: nat,
    active: nat,
    last: Option<u64>,
    now: u64,
) -> bool {
    &&& c.enabled
    &&& queue_len > 0
    &&& active < c.max_concurrent_batches
    &&& match last {
        Some(t) => (if now >= t { now - t } else { 0 }) >= c.batch_delay_ms,
        None => true,
    }
}

/// The size of the next batch: the configured size, or fewer if fewer wait.
pub open spec fn spec_batch_len(c: BatchSubscriptionConfig, queue_len: nat) -> nat {
    if c.batch_size < queue_len { c.batch_size as nat } else { queue_len }
}

/// What starting the next batch at `now` does to a manager `a`, giving `b` and `r`: a
/// batch starts exactly when one is due and its size is not zero; it is the front of the
/// queue, its symbols become `Subscribing`, it is recorded in flight under its identifier
/// at `now`, and `now` becomes the time of the last batch. When none is due nothing
/// changes.
pub open spec fn spec_begin_outcome(
    a: BatchSubscriptionManager,
    b: BatchSubscriptionManager,
    r: Option<(String, Vec<SubscriptionRequest>)>,
    now: u64,
) -> bool {
    let q = a.state.pending_queue@;
    let due = spec_batch_due(a.config, q.len(), a.state.active_batches.view().len(), a.state.last_batch_time, now);
    let n = spec_batch_len(a.config, q.len()) as int;
    &&& (r is Some <==> due && n > 0)
    &&& due ==> {
        &&& b.state.pending_queue@ == q.skip(n)
        &&& b.statuses() == spec_mark_all(a.statuses(), q.take(n), SubscriptionStatusView::Subscribing)
        &&& b.state.last_batch_time == Some(now)
        &&& b.state.stats == (BatchSubscriptionStats {
            queue_length: (q.len() - n) as usize,
            active_batches: if n > 0 { b.state.active_batches.view().len() as usize } else { a.state.stats.active_batches },
            ..a.state.stats
        })
    }
    &&& b.state.total_batch_time_ms == a.state.total_batch_time_ms
    &&& !due ==> {
        &&& b.state.pending_queue@ == q
        &&& b.statuses() == a.statuses()
        &&& b.state.last_batch_time == a.state.last_batch_time
        &&& b.state.stats == a.state.stats
    }
    &&& r matches Some((id, batch)) ==> {
        &&& batch@ == q.take(n)
        &&& b.state.active_batches.view() == a.state.active_batches.view().insert(id@, spec_started_batch(id@, requests_view(batch@), now))
    }
}

/// What queuing a request for `symbol` at `now` does to a manager `a`, giving `b` and `r`:
/// refused while the manager is off; a symbol already active or being subscribed is left
/// alone; otherwise the request with priority `priority` (or 100) goes after every
/// request of the same or a smaller priority, the symbol becomes pending and one more
/// request is counted.
pub open spec fn spec_add_outcome(
    a: BatchSubscriptionManager,
    b: BatchSubscriptionManager,
    r: Result<(), ConnectorError>,
    symbol: String,
    data_types: Vec<DataType>,
    priority: Option<u32>,
    now: u64,
) -> bool {
    &&& (b.config == a.config)
    &&& (!a.config.enabled ==> {
                &&& r matches Err(ConnectorError::SubscriptionFailed(m)) && m@ == "批量订阅管理器未启用"@
                &&& b.state.pending_queue@ == a.state.pending_queue@
                &&& b.statuses() == a.statuses()
                &&& b.state.stats == a.state.stats
            })
    &&& (a.config.enabled ==> r is Ok)
    &&& ((a.config.enabled && a.statuses().contains_key(symbol@)
                && (a.statuses()[symbol@] == SubscriptionStatusView::Active
                    || a.statuses()[symbol@] == SubscriptionStatusView::Subscribing)) ==> {
                &&& b.state.pending_queue@ == a.state.pending_queue@
                &&& b.statuses() == a.statuses()
                &&& b.state.stats == a.state.stats
            })
    &&& ((a.config.enabled && !(a.statuses().contains_key(symbol@)
                && (a.statuses()[symbol@] == SubscriptionStatusView::Active
                    || a.statuses()[symbol@] == SubscriptionStatusView::Subscribing))) ==> {
                let p = match priority { Some(x) => x, None => 100u32 };
                let req = SubscriptionRequest {
                    symbol,
                    data_types,
                    request_time: now,
                    retry_count: 0,
                    priority: p,
                };
                &&& spec_enqueued(a.state.pending_queue@, b.state.pending_queue@, req)
                &&& b.statuses() == a.statuses().insert(symbol@, SubscriptionStatusView::Pending)
                &&& b.state.stats == (BatchSubscriptionStats {
                    total_requests: (a.state.stats.total_requests + 1) as u64,
                    queue_length: (a.state.pending_queue@.len() + 1) as usize,
                    ..a.state.stats
                })
            })
    &&& (b.state.active_batches == a.state.active_batches)
    &&& (b.state.last_batch_time == a.state.last_batch_time)
    &&& (b.state.total_batch_time_ms == a.state.total_batch_time_ms)
}

/// `chain` runs from `a` to `b` through one queued request per symbol, in order, each
/// with data types equal to `data_types` and with `priority`, at some time, and each
/// accepted.
pub open spec fn spec_add_chain(
    chain: Seq<BatchSubscriptionManager>,
    a: BatchSubscriptionManager,
    b: BatchSubscriptionManager,
    symbols: Seq<String>,
    data_types: Seq<DataType>,
    priority: Option<u32>,
) -> bool {
    &&& chain.len() == symbols.len() + 1
    &&& chain[0] == a
    &&& chain.last() == b
    &&& forall|j: int| 0 <= j < symbols.len() ==> #[trigger] spec_add_step(chain, symbols, data_types, priority, j)
}

/// Step `j` of `chain` queues `symbols[j]` with data types equal to `data_types` and with
/// `priority`, at some time, and is accepted.
pub open spec fn spec_add_step(
    chain: Seq<BatchSubscriptionManager>,
    symbols: Seq<String>,
    data_types: Seq<DataType>,
    priority: Option<u32>,
    j: int,
) -> bool {
    exists|t: u64, d: Vec<DataType>|
        d@ == data_types && #[trigger] spec_add_outcome(chain[j], chain[j + 1], Ok(()), symbols[j], d, priority, t)
}

/// What requeuing the failed subscriptions at `now` does to a manager `a`, giving `b` and
/// `r`: it counts the failed symbols, puts a request for each at the front of the queue
/// with priority 1, no retries, the order book as data type and time `now`, marks each
/// `Retrying(1)`, and leaves the other states and counters as they were.
pub open spec fn spec_retry_outcome(
    a: BatchSubscriptionManager,
    b: BatchSubscriptionManager,
    r: Result<usize, ConnectorError>,
    now: u64,
) -> bool {
    &&& b.config == a.config
    &&& r matches Ok(n) && {
        &&& n == a.statuses().dom().filter(|k: Seq<char>| a.statuses()[k] is Failed).len()
        &&& b.state.pending_queue@.len() == a.state.pending_queue@.len() + n
        &&& b.state.pending_queue@.skip(n as int) == a.state.pending_queue@
        &&& forall|i: int| 0 <= i < n ==> {
            let q = #[trigger] b.state.pending_queue@[i];
            &&& q.priority == 1
            &&& q.retry_count == 0
            &&& q.request_time == now
            &&& q.data_types@ == seq![DataType::OrderBook]
            &&& a.statuses().contains_key(q.symbol@)
            &&& a.statuses()[q.symbol@] is Failed
        }
        &&& forall|i: int, j: int| 0 <= i < j < n ==>
            (#[trigger] b.state.pending_queue@[i]).symbol@ != (#[trigger] b.state.pending_queue@[j]).symbol@
        &&& b.statuses() == Map::new(
            |k: Seq<char>| a.statuses().contains_key(k),
            |k: Seq<char>| if a.statuses()[k] is Failed {
                SubscriptionStatusView::Retrying(1)
            } else {
                a.statuses()[k]
            },
        )
        &&& b.state.stats == (BatchSubscriptionStats {
            queue_length: b.state.pending_queue@.len() as usize,
            ..a.state.stats
        })
    }
    &&& b.state.active_batches == a.state.active_batches
    &&& b.state.last_batch_time == a.state.last_batch_time
    &&& b.state.total_batch_time_ms == a.state.total_batch_time_ms
}

/// Splits subscriptions into batches and records their outcome.
#[derive(Debug)]
pub struct BatchSubscriptionManager {
    pub config: BatchSubscriptionConfig,
    pub state: BatchSubscriptionState,
}

/// A fresh random version-4 UUID (`uuid::Uuid::new_v4`) in its hyphenated text form:
/// 36 ASCII characters. Nothing more is promised of the value: it is random.
#[verifier::external_body]
fn random_uuid_text() -> (r: String)
    ensures
        r@.len() == 36,
        vstd::utf8::is_ascii_chars(r@),
{
    uuid::Uuid::new_v4().to_string()
}

/// The identifier of a batch: `batch_` and the first eight characters of a UUID text.
pub open spec fn spec_batch_id(uuid_text: Seq<char>) -> Seq<char> {
    "batch_"@ + uuid_text.take(8)
}

/// The batch identifier made from a UUID text of at least eight characters.
pub fn batch_id_of(uuid_text: &str) -> (r: String)
    requires
        uuid_text@.len() >= 8,
    ensures
        r@ == spec_batch_id(uuid_text@),
{
    let head = uuid_text.substring_char(0, 8);
    assert(head@ =~= uuid_text@.take(8));
    owned("batch_").concat(head)
}

impl BatchSubscriptionManager {
    /// The manager is well formed: its tables have distinct keys.
    pub open spec fn wf(&self) -> bool {
        self.state.active_batches.wf() && self.state.subscription_status.wf()
    }

    /// The subscription states, by symbol.
    pub open spec fn statuses(&self) -> Map<Seq<char>, SubscriptionStatusView> {
        self.state.subscription_status.view()
    }

    /// A manager with the given settings, nothing queued and zero counters.
    pub fn new(config: BatchSubscriptionConfig) -> (r: Self)
        ensures
            r.wf(),
            r.config == config,
            r.state.pending_queue@.len() == 0,
            r.statuses() == Map::<Seq<char>, SubscriptionStatusView>::empty(),
            r.state.active_batches.view().len() == 0,
            r.state.stats == spec_zero_stats(),
            r.state.last_batch_time is None,
            r.state.total_batch_time_ms == 0,
    {
        let r = BatchSubscriptionManager {
            config,
            state: BatchSubscriptionState {
                pending_queue: VecDeque::new(),
                active_batches: StrMap::new(),
                subscription_status: StrMap::new(),
                stats: BatchSubscriptionStats::default(),
                last_batch_time: None,
                total_batch_time_ms: 0,
            },
        };
        r
    }

    /// A manager with the default settings.
    pub fn with_default_config() -> (r: Self)
        ensures
            r.wf(),
            r.config == (BatchSubscriptionConfig {
                batch_size: 10,
                batch_delay_ms: 1000,
                subscription_timeout_ms: 5000,
                max_retries: 3,
                retry_delay_ms: 2000,
                enabled: true,
                max_concurrent_batches: 3,
            }),
            r.state.pending_queue@.len() == 0,
            r.statuses() == Map::<Seq<char>, SubscriptionStatusView>::empty(),
            r.state.active_batches.view().len() == 0,
            r.state.stats == spec_zero_stats(),
            r.state.last_batch_time is None,
            r.state.total_batch_time_ms == 0,
    {
        Self::new(BatchSubscriptionConfig::default())
    }

    /// Queues a request for `symbol` at time `now`, with priority `priority` or 100.
    /// A symbol already active or being subscribed is left as it is. The request goes after
    /// all requests of the same or a smaller priority, and the symbol becomes pending.
    pub fn add_subscription_request_at(
        &mut self,
        symbol: String,
        data_types: Vec<DataType>,
        priority: Option<u32>,
        now: u64,
    ) -> (r: Result<(), ConnectorError>)
        requires
            old(self).wf(),
            old(self).state.stats.total_requests < u64::MAX,
        ensures
            final(self).wf(),
            spec_add_outcome(*old(self), *final(self), r, symbol, data_types, priority, now),
    {
        if !self.config.enabled {
            return Err(ConnectorError::SubscriptionFailed(owned("批量订阅管理器未启用")));
        }
        match self.state.subscription_status.get(symbol.as_str()) {
            Some(SubscriptionStatus::Active) => {
                return Ok(());
            },
            Some(SubscriptionStatus::Subscribing) => {
                return Ok(());
            },
            _ => {},
        }
        let p = match priority {
            Some(x) => x,
            None => 100u32,
        };
        let key = symbol.clone();
        let request = SubscriptionRequest { symbol, data_types, request_time: now, retry_count: 0, priority: p };
        let n = self.state.pending_queue.len();
        let mut pos: usize = 0;
        while pos < n && self.state.pending_queue[pos].priority <= p
            invariant
                n == self.state.pending_queue@.len(),
                pos <= n,
                forall|j: int| 0 <= j < pos ==> #[trigger] self.state.pending_queue@[j].priority <= p,
            decreases n - pos,
        {
            pos = pos + 1;
        }
        let ghost q_old = self.state.pending_queue@;
        let ghost req = request;
        assert(is_insert_pos(q_old, p, pos as int));
        self.state.pending_queue.insert(pos, request);
        assert(self.state.pending_queue@ == q_old.insert(pos as int, req));
        self.state.subscription_status.insert(key, SubscriptionStatus::Pending);
        self.state.stats.total_requests = self.state.stats.total_requests + 1;
        self.state.stats.queue_length = self.state.pending_queue.len();
        assert(self.statuses() == old(self).statuses().insert(req.symbol@, SubscriptionStatusView::Pending));
        assert(is_insert_pos(old(self).state.pending_queue@, p, pos as int)
            && self.state.pending_queue@ == old(self).state.pending_queue@.insert(pos as int, req));
        assert(self.state.stats == (BatchSubscriptionStats {
            total_requests: (old(self).state.stats.total_requests + 1) as u64,
            queue_length: (old(self).state.pending_queue@.len() + 1) as usize,
            ..old(self).state.stats
        }));
        assert(is_insert_pos(old(self).state.pending_queue@, req.priority, pos as int));
        assert(spec_enqueued(old(self).state.pending_queue@, self.state.pending_queue@, req));
        Ok(())
    }

    /// Queues a request for `symbol` now, by the system clock.
    pub fn add_subscription_request(
        &mut self,
        symbol: String,
        data_types: Vec<DataType>,
        priority: Option<u32>,
    ) -> (r: Result<(), ConnectorError>)
        requires
            old(self).wf(),
            old(self).state.stats.total_requests < u64::MAX,
        ensures
            final(self).wf(),
            final(self).config == old(self).config,
            exists|now: u64| #[trigger] spec_add_outcome(*old(self), *final(self), r, symbol, data_types, priority, now),
    {
        let now = now_millis();
        let ghost a = *self;
        let ghost s0 = symbol;
        let ghost d0 = data_types;
        let r = self.add_subscription_request_at(symbol, data_types, priority, now);
        assert(spec_add_outcome(a, *self, r, s0, d0, priority, now));
        r
    }

    /// Queues a request for each symbol in turn, all with the same data types and priority.
    pub fn add_batch_subscription_requests(
        &mut self,
        symbols: Vec<String>,
        data_types: Vec<DataType>,
        priority: Option<u32>,
    ) -> (r: Result<(), ConnectorError>)
        requires
            old(self).wf(),
            old(self).state.stats.total_requests + symbols@.len() < u64::MAX,
        ensures
            final(self).wf(),
            final(self).config == old(self).config,
            !old(self).config.enabled <==> r is Err,
            !old(self).config.enabled ==> (r matches Err(ConnectorError::SubscriptionFailed(m)) && m@ == "批量订阅管理器未启用"@
                && *final(self) == *old(self)),
            old(self).config.enabled ==> exists|chain: Seq<BatchSubscriptionManager>| #[trigger] spec_add_chain(
                chain,
                *old(self),
                *final(self),
                symbols@,
                data_types@,
                priority,
            ),
    {
        let mut i: usize = 0;
        let n = symbols.len();
        if !self.config.enabled {
            return Err(ConnectorError::SubscriptionFailed(owned("批量订阅管理器未启用")));
        }
        let ghost mut chain: Seq<BatchSubscriptionManager> = seq![*self];
        while i < n
            invariant
                self.wf(),
                self.config == old(self).config,
                self.config.enabled,
                n == symbols@.len(),
                i <= n,
                self.state.stats.total_requests <= old(self).state.stats.total_requests + i,
                old(self).state.stats.total_requests + n < u64::MAX,
                spec_add_chain(chain, *old(self), *self, symbols@.take(i as int), data_types@, priority),
            decreases n - i,
        {
            let ghost before = *self;
            let sym = symbols[i].clone();
            let dts = data_types.clone();
            let now = now_millis();
            let ghost s0 = sym;
            let ghost d0 = dts;
            let r = self.add_subscription_request_at(sym, dts, priority, now);
            proof {
                let c2 = chain.push(*self);
                assert(spec_add_outcome(before, *self, r, s0, d0, priority, now));
                assert(symbols@.take(i + 1) =~= symbols@.take(i as int).push(symbols@[i as int]));
                assert forall|j: int| 0 <= j < i + 1 implies #[trigger] spec_add_step(c2, symbols@.take(i + 1), data_types@, priority, j) by {
                    if j < i {
                        assert(c2[j] == chain[j] && c2[j + 1] == chain[j + 1]);
                        assert(symbols@.take(i + 1)[j] == symbols@.take(i as int)[j]);
                        assert(spec_add_step(chain, symbols@.take(i as int), data_types@, priority, j));
                    } else {
                        assert(c2[j] == before && c2[j + 1] == *self);
                        assert(spec_add_outcome(c2[j], c2[j + 1], Ok(()), symbols@.take(i + 1)[j], d0, priority, now));
                    }
                }
                chain = c2;
            }
            i = i + 1;
        }
        assert(symbols@.take(n as int) =~= symbols@);
        Ok(())
    }

    /// Takes the next batch off the queue at time `now`, if one is due: at most
    /// `batch_size` requests from the front. Their symbols become `Subscribing` and the time
    /// of this batch is remembered.
    pub fn take_next_batch_at(&mut self, now: u64) -> (r: Option<Vec<SubscriptionRequest>>)
        requires
            old(self).wf(),
        ensures
            final(self).wf(),
            final(self).config == old(self).config,
            final(self).state.active_batches == old(self).state.active_batches,
            final(self).state.total_batch_time_ms == old(self).state.total_batch_time_ms,
            !spec_batch_due(old(self).config, old(self).state.pending_queue@.len(),
                old(self).state.active_batches.view().len(), old(self).state.last_batch_time, now) ==> {
                &&& r is None
                &&& final(self).state.pending_queue@ == old(self).state.pending_queue@
                &&& final(self).statuses() == old(self).statuses()
                &&& final(self).state.stats == old(self).state.stats
                &&& final(self).state.last_batch_time == old(self).state.last_batch_time
            },
            spec_batch_due(old(self).config, old(self).state.pending_queue@.len(),
                old(self).state.active_batches.view().len(), old(self).state.last_batch_time, now) ==> {
                let n = spec_batch_len(old(self).config, old(self).state.pending_queue@.len()) as int;
                let batch = old(self).state.pending_queue@.take(n);
                &&& final(self).state.pending_queue@ == old(self).state.pending_queue@.skip(n)
                &&& final(self).statuses() == spec_mark_all(old(self).statuses(), batch, SubscriptionStatusView::Subscribing)
                &&& final(self).state.last_batch_time == Some(now)
                &&& final(self).state.stats == (BatchSubscriptionStats {
                    queue_length: (old(self).state.pending_queue@.len() - n) as usize,
                    ..old(self).state.stats
                })
                &&& if n == 0 { r is None } else { r matches Some(b) && b@ == batch }
            },
    {
        if !self.config.enabled {
            return None;
        }
        if self.state.pending_queue.len() == 0 {
            return None;
        }
        proof {
            self.state.active_batches.lemma_len_matches();
        }
        if self.state.active_batches.len() >= self.config.max_concurrent_batches {
            return None;
        }
        match self.state.last_batch_time {
            Some(last) => {
                let elapsed = if now >= last { now - last } else { 0 };
                if elapsed < self.config.batch_delay_ms {
                    return None;
                }
            },
            None => {},
        }
        let len = self.state.pending_queue.len();
        let n = if self.config.batch_size < len { self.config.batch_size } else { len };
        let ghost q0 = self.state.pending_queue@;
        let ghost m0 = self.statuses();
        let mut batch: Vec<SubscriptionRequest> = Vec::new();
        let mut i: usize = 0;
        while i < n
            invariant
                self.wf(),
                n <= q0.len(),
                i <= n,
                batch@ == q0.take(i as int),
                self.state.pending_queue@ == q0.skip(i as int),
                self.statuses() == spec_mark_all(m0, q0.take(i as int), SubscriptionStatusView::Subscribing),
                self.config == old(self).config,
                self.state.active_batches == old(self).state.active_batches,
                self.state.stats == old(self).state.stats,
                self.state.last_batch_time == old(self).state.last_batch_time,
                self.state.total_batch_time_ms == old(self).state.total_batch_time_ms,
            decreases n - i,
        {
            let ghost before = self.statuses();
            let request = self.state.pending_queue.pop_front().unwrap();
            assert(self.state.pending_queue@ =~= q0.skip(i as int).drop_first());
            self.state.subscription_status.insert(request.symbol.clone(), SubscriptionStatus::Subscribing);
            batch.push(request);
            proof {
                assert(q0.skip(i as int).drop_first() =~= q0.skip(i + 1));
                assert(q0.take(i as int).push(q0[i as int]) =~= q0.take(i + 1));
                let t1 = q0.take(i + 1);
                let t0 = q0.take(i as int);
                assert forall|k: Seq<char>| spec_mentions(t1, k) == (spec_mentions(t0, k) || k == q0[i as int].symbol@) by {
                    if spec_mentions(t1, k) {
                        let j = choose|j: int| 0 <= j < t1.len() && #[trigger] t1[j].symbol@ == k;
                        if j < i {
                            assert(t0[j].symbol@ == k);
                        }
                    }
                    if spec_mentions(t0, k) {
                        let j = choose|j: int| 0 <= j < t0.len() && #[trigger] t0[j].symbol@ == k;
                        assert(t1[j].symbol@ == k);
                    }
                    if k == q0[i as int].symbol@ {
                        assert(t1[i as int].symbol@ == k);
                    }
                }
                assert(self.statuses() =~= spec_mark_all(m0, t1, SubscriptionStatusView::Subscribing));
            }
            i = i + 1;
        }
        self.state.stats.queue_length = self.state.pending_queue.len();
        self.state.last_batch_time = Some(now);
        if n == 0 {
            None
        } else {
            Some(batch)
        }
    }

    /// Records a batch as in flight under `batch_id`, started at `now`.
    pub fn register_batch_at(&mut self, batch_id: String, requests: Vec<SubscriptionRequest>, now: u64)
        requires
            old(self).wf(),
        ensures
            final(self).wf(),
            final(self).config == old(self).config,
            final(self).state.pending_queue@ == old(self).state.pending_queue@,
            final(self).statuses() == old(self).statuses(),
            final(self).state.active_batches.view() == old(self).state.active_batches.view().insert(
                batch_id@, spec_started_batch(batch_id@, requests_view(requests@), now)),
            final(self).state.stats == (BatchSubscriptionStats {
                active_batches: final(self).state.active_batches.view().len() as usize,
                ..old(self).state.stats
            }),
            final(self).state.last_batch_time == old(self).state.last_batch_time,
            final(self).state.total_batch_time_ms == old(self).state.total_batch_time_ms,
    {
        let info = BatchInfo {
            batch_id: batch_id.clone(),
            requests,
            start_time: now,
            status: BatchStatus::Processing,
            retry_count: 0,
        };
        self.state.active_batches.insert(batch_id, info);
        proof {
            self.state.active_batches.lemma_len_matches();
        }
        self.state.stats.active_batches = self.state.active_batches.len();
    }

    /// Starts the next batch if one is due: takes it off the queue, gives it a fresh
    /// identifier `batch_<8 characters of a random UUID>`, and records it as in flight.
    pub fn begin_next_batch(&mut self) -> (r: Option<(String, Vec<SubscriptionRequest>)>)
        requires
            old(self).wf(),
        ensures
            final(self).wf(),
            final(self).config == old(self).config,
            r matches Some((id, b)) ==> {
                &&& b@.len() > 0
                &&& b@ == old(self).state.pending_queue@.take(b@.len() as int)
                &&& final(self).state.pending_queue@ == old(self).state.pending_queue@.skip(b@.len() as int)
                &&& spec_starts_with_batch(id@)
                &&& exists|u: Seq<char>| u.len() == 36 && vstd::utf8::is_ascii_chars(u) && id@ == #[trigger] spec_batch_id(u)
                &&& final(self).state.active_batches.view().contains_key(id@)
            },
            r is None ==> final(self).state.active_batches.view() == old(self).state.active_batches.view(),
            exists|now: u64| #[trigger] spec_begin_outcome(*old(self), *final(self), r, now),
    {
        let now = now_millis();
        let ghost g0 = *self;
        match self.take_next_batch_at(now) {
            None => {
                assert(spec_begin_outcome(g0, *self, None, now));
                None
            },
            Some(batch) => {
                let uuid_text = random_uuid_text();
                let id = batch_id_of(uuid_text.as_str());
                proof {
                    reveal_strlit("batch_");
                    assert(id@.subrange(0, 6) =~= "batch_"@);
                }
                let copy = copy_requests(&batch);
                self.register_batch_at(id.clone(), copy, now);
                let r = Some((id, batch));
                assert(spec_begin_outcome(g0, *self, r, now));
                r
            },
        }
    }

    /// Records the answers to a batch: each request's symbol becomes active or failed as its
    /// last answer says, and the counters grow by the number of each.
    pub fn handle_batch_success(
        &mut self,
        batch_id: &str,
        requests: &Vec<SubscriptionRequest>,
        results: &Vec<(String, bool, Option<String>)>,
        processing_time_ms: u64,
    ) -> (r: BatchSubscriptionResult)
        requires
            old(self).wf(),
            old(self).state.stats.successful_subscriptions + requests@.len() <= u64::MAX,
            old(self).state.stats.failed_subscriptions + requests@.len() <= u64::MAX,
        ensures
            final(self).wf(),
            final(self).config == old(self).config,
            final(self).state.pending_queue@ == old(self).state.pending_queue@,
            final(self).state.active_batches == old(self).state.active_batches,
            final(self).state.last_batch_time == old(self).state.last_batch_time,
            final(self).state.total_batch_time_ms == old(self).state.total_batch_time_ms,
            final(self).statuses() == spec_apply_answers(old(self).statuses(), requests@, results@),
            r.batch_id@ == batch_id@,
            r.total_requests == requests@.len(),
            r.successful == spec_count_active(requests@, results@),
            r.failed == requests@.len() - spec_count_active(requests@, results@),
            r.processing_time_ms == processing_time_ms,
            spec_pairs_view(r.failed_symbols@) == spec_failures(requests@, results@),
            final(self).state.stats == (BatchSubscriptionStats {
                successful_subscriptions: (old(self).state.stats.successful_subscriptions + r.successful) as u64,
                failed_subscriptions: (old(self).state.stats.failed_subscriptions + r.failed) as u64,
                ..old(self).state.stats
            }),
    {
        let n = requests.len();
        let mut successful: usize = 0;
        let mut failed: usize = 0;
        let mut failed_symbols: Vec<(String, String)> = Vec::new();
        let ghost m0 = self.statuses();
        let ghost s0 = self.state.stats;
        let mut i: usize = 0;
        while i < n
            invariant
                self.wf(),
                n == requests@.len(),
                i <= n,
                successful + failed == i,
                successful == spec_count_active(requests@.take(i as int), results@),
                spec_pairs_view(failed_symbols@) == spec_failures(requests@.take(i as int), results@),
                self.statuses() == spec_apply_answers(m0, requests@.take(i as int), results@),
                self.state.stats == (BatchSubscriptionStats {
                    successful_subscriptions: (s0.successful_subscriptions + successful) as u64,
                    failed_subscriptions: (s0.failed_subscriptions + failed) as u64,
                    ..s0
                }),
                s0.successful_subscriptions + n <= u64::MAX,
                s0.failed_subscriptions + n <= u64::MAX,
                self.config == old(self).config,
                self.state.pending_queue@ == old(self).state.pending_queue@,
                self.state.active_batches == old(self).state.active_batches,
                self.state.last_batch_time == old(self).state.last_batch_time,
                self.state.total_batch_time_ms == old(self).state.total_batch_time_ms,
            decreases n - i,
        {
            let request = &requests[i];
            let ghost t0 = requests@.take(i as int);
            let ghost t1 = requests@.take(i + 1);
            let ghost k = request.symbol@;
            proof {
                assert(t1.drop_last() =~= t0);
                assert(t1.last() == requests@[i as int]);
            }
            let status = match last_answer(results, request.symbol.as_str()) {
                Some(j) => {
                    if results[j].1 {
                        SubscriptionStatus::Active
                    } else {
                        match &results[j].2 {
                            Some(reason) => SubscriptionStatus::Failed(reason.clone()),
                            None => SubscriptionStatus::Failed(owned("未知错误")),
                        }
                    }
                },
                None => SubscriptionStatus::Failed(owned("没有返回结果")),
            };
            assert(status@ == spec_answer_status(results@, k));
            let ghost before_pairs = failed_symbols@;
            match &status {
                SubscriptionStatus::Active => {
                    successful = successful + 1;
                    self.state.stats.successful_subscriptions = self.state.stats.successful_subscriptions + 1;
                },
                SubscriptionStatus::Failed(reason) => {
                    failed = failed + 1;
                    self.state.stats.failed_subscriptions = self.state.stats.failed_subscriptions + 1;
                    failed_symbols.push((request.symbol.clone(), reason.clone()));
                    proof {
                        assert(spec_pairs_view(failed_symbols@) =~= spec_pairs_view(before_pairs).push((k, reason@)));
                    }
                },
                _ => {},
            }
            self.state.subscription_status.insert(request.symbol.clone(), status);
            proof {
                lemma_mentions_push(t0, requests@[i as int]);
                assert(t1 =~= t0.push(requests@[i as int]));
                assert(self.statuses() =~= spec_apply_answers(m0, t1, results@));
            }
            i = i + 1;
        }
        proof {
            assert(requests@.take(n as int) =~= requests@);
        }
        BatchSubscriptionResult {
            batch_id: owned(batch_id),
            total_requests: n,
            successful,
            failed,
            processing_time_ms,
            failed_symbols,
        }
    }

    /// Records a batch that failed as a whole: every request's symbol fails with `error`.
    pub fn handle_batch_error(
        &mut self,
        batch_id: &str,
        requests: &Vec<SubscriptionRequest>,
        error: &str,
        processing_time_ms: u64,
    ) -> (r: BatchSubscriptionResult)
        requires
            old(self).wf(),
            old(self).state.stats.failed_subscriptions + requests@.len() <= u64::MAX,
        ensures
            final(self).wf(),
            final(self).config == old(self).config,
            final(self).state.pending_queue@ == old(self).state.pending_queue@,
            final(self).state.active_batches == old(self).state.active_batches,
            final(self).state.last_batch_time == old(self).state.last_batch_time,
            final(self).state.total_batch_time_ms == old(self).state.total_batch_time_ms,
            final(self).statuses() == spec_mark_all(old(self).statuses(), requests@, SubscriptionStatusView::Failed(error@)),
            r.batch_id@ == batch_id@,
            r.total_requests == requests@.len(),
            r.successful == 0,
            r.failed == requests@.len(),
            r.processing_time_ms == processing_time_ms,
            spec_pairs_view(r.failed_symbols@) == spec_all_failed(requests@, error@),
            final(self).state.stats == (BatchSubscriptionStats {
                failed_subscriptions: (old(self).state.stats.failed_subscriptions + requests@.len()) as u64,
                ..old(self).state.stats
            }),
    {
        let n = requests.len();
        let mut failed_symbols: Vec<(String, String)> = Vec::new();
        let ghost m0 = self.statuses();
        let ghost s0 = self.state.stats;
        let mut i: usize = 0;
        while i < n
            invariant
                self.wf(),
                n == requests@.len(),
                i <= n,
                spec_pairs_view(failed_symbols@) == spec_all_failed(requests@.take(i as int), error@),
                self.statuses() == spec_mark_all(m0, requests@.take(i as int), SubscriptionStatusView::Failed(error@)),
                self.state.stats == (BatchSubscriptionStats {
                    failed_subscriptions: (s0.failed_subscriptions + i) as u64,
                    ..s0
                }),
                s0.failed_subscriptions + n <= u64::MAX,
                self.config == old(self).config,
                self.state.pending_queue@ == old(self).state.pending_queue@,
                self.state.active_batches == old(self).state.active_batches,
                self.state.last_batch_time == old(self).state.last_batch_time,
                self.state.total_batch_time_ms == old(self).state.total_batch_time_ms,
            decreases n - i,
        {
            let request = &requests[i];
            let ghost t0 = requests@.take(i as int);
            let ghost t1 = requests@.take(i + 1);
            let ghost before_pairs = failed_symbols@;
            self.state.subscription_status.insert(request.symbol.clone(), SubscriptionStatus::Failed(owned(error)));
            self.state.stats.failed_subscriptions = self.state.stats.failed_subscriptions + 1;
            failed_symbols.push((request.symbol.clone(), owned(error)));
            proof {
                assert(t1 =~= t0.push(requests@[i as int]));
                lemma_mentions_push(t0, requests@[i as int]);
                assert(self.statuses() =~= spec_mark_all(m0, t1, SubscriptionStatusView::Failed(error@)));
                assert(spec_pairs_view(failed_symbols@) =~= spec_pairs_view(before_pairs).push((requests@[i as int].symbol@, error@)));
                assert(spec_all_failed(t1, error@) =~= spec_all_failed(t0, error@).push((requests@[i as int].symbol@, error@)));
            }
            i = i + 1;
        }
        proof {
            assert(requests@.take(n as int) =~= requests@);
        }
        BatchSubscriptionResult {
            batch_id: owned(batch_id),
            total_requests: n,
            successful: 0,
            failed: n,
            processing_time_ms,
            failed_symbols,
        }
    }

    /// Records a batch that got no answer in time: it fails with 订阅超时.
    pub fn handle_batch_timeout(
        &mut self,
        batch_id: &str,
        requests: &Vec<SubscriptionRequest>,
        processing_time_ms: u64,
    ) -> (r: BatchSubscriptionResult)
        requires
            old(self).wf(),
            old(self).state.stats.failed_subscriptions + requests@.len() <= u64::MAX,
        ensures
            final(self).wf(),
            final(self).config == old(self).config,
            final(self).state.pending_queue@ == old(self).state.pending_queue@,
            final(self).state.active_batches == old(self).state.active_batches,
            final(self).state.last_batch_time == old(self).state.last_batch_time,
            final(self).state.total_batch_time_ms == old(self).state.total_batch_time_ms,
            final(self).statuses() == spec_mark_all(old(self).statuses(), requests@, SubscriptionStatusView::Failed("订阅超时"@)),
            r.batch_id@ == batch_id@,
            r.total_requests == requests@.len(),
            r.successful == 0,
            r.failed == requests@.len(),
            r.processing_time_ms == processing_time_ms,
            spec_pairs_view(r.failed_symbols@) == spec_all_failed(requests@, "订阅超时"@),
            final(self).state.stats == (BatchSubscriptionStats {
                failed_subscriptions: (old(self).state.stats.failed_subscriptions + requests@.len()) as u64,
                ..old(self).state.stats
            }),
    {
        self.handle_batch_error(batch_id, requests, "订阅超时", processing_time_ms)
    }

    /// Closes a batch in flight: records its outcome, removes it from the batches in flight,
    /// counts it, and folds its time into the average.
    pub fn finish_batch(
        &mut self,
        batch_id: &str,
        requests: &Vec<SubscriptionRequest>,
        outcome: &BatchOutcome,
        processing_time_ms: u64,
    ) -> (r: BatchSubscriptionResult)
        requires
            old(self).wf(),
            old(self).state.stats.successful_subscriptions + requests@.len() <= u64::MAX,
            old(self).state.stats.failed_subscriptions + requests@.len() <= u64::MAX,
            old(self).state.stats.total_batches < u64::MAX,
            old(self).state.total_batch_time_ms + processing_time_ms <= u64::MAX,
        ensures
            final(self).wf(),
            final(self).config == old(self).config,
            final(self).state.pending_queue@ == old(self).state.pending_queue@,
            final(self).statuses() == match outcome {
                BatchOutcome::Answered(answers) => spec_apply_answers(old(self).statuses(), requests@, answers@),
                BatchOutcome::Error(e) => spec_mark_all(old(self).statuses(), requests@, SubscriptionStatusView::Failed(e@)),
                BatchOutcome::TimedOut => spec_mark_all(old(self).statuses(), requests@, SubscriptionStatusView::Failed("订阅超时"@)),
            },
            final(self).state.active_batches.view() == old(self).state.active_batches.view().remove(batch_id@),
            final(self).state.stats.active_batches == final(self).state.active_batches.view().len(),
            final(self).state.stats.total_batches == old(self).state.stats.total_batches + 1,
            final(self).state.total_batch_time_ms == old(self).state.total_batch_time_ms + processing_time_ms,
            final(self).state.stats.avg_batch_time_ms == final(self).state.total_batch_time_ms / final(self).state.stats.total_batches,
            final(self).state.stats.total_requests == old(self).state.stats.total_requests,
            final(self).state.stats.successful_subscriptions == old(self).state.stats.successful_subscriptions + r.successful,
            final(self).state.stats.failed_subscriptions == old(self).state.stats.failed_subscriptions + r.failed,
            final(self).state.stats.queue_length == old(self).state.stats.queue_length,
            final(self).state.last_batch_time == old(self).state.last_batch_time,
            r.batch_id@ == batch_id@,
            r.total_requests == requests@.len(),
            r.successful + r.failed == requests@.len(),
            r.processing_time_ms == processing_time_ms,
            match outcome {
                BatchOutcome::Answered(answers) => r.successful == spec_count_active(requests@, answers@)
                    && spec_pairs_view(r.failed_symbols@) == spec_failures(requests@, answers@),
                BatchOutcome::Error(e) => r.successful == 0 && spec_pairs_view(r.failed_symbols@) == spec_all_failed(requests@, e@),
                BatchOutcome::TimedOut => r.successful == 0 && spec_pairs_view(r.failed_symbols@) == spec_all_failed(requests@, "订阅超时"@),
            },
    {
        let r = match outcome {
            BatchOutcome::Answered(answers) => self.handle_batch_success(batch_id, requests, answers, processing_time_ms),
            BatchOutcome::Error(e) => self.handle_batch_error(batch_id, requests, e.as_str(), processing_time_ms),
            BatchOutcome::TimedOut => self.handle_batch_timeout(batch_id, requests, processing_time_ms),
        };
        self.state.active_batches.remove(batch_id);
        proof {
            self.state.active_batches.lemma_len_matches();
        }
        self.state.stats.active_batches = self.state.active_batches.len();
        self.state.stats.total_batches = self.state.stats.total_batches + 1;
        self.state.total_batch_time_ms = self.state.total_batch_time_ms + processing_time_ms;
        self.state.stats.avg_batch_time_ms = self.state.total_batch_time_ms / self.state.stats.total_batches;
        r
    }

    /// Queues every failed symbol again, at the front and with priority 1, for order-book
    /// data, and marks it as in its first retry. Returns how many were queued.
    pub fn retry_failed_subscriptions_at(&mut self, now: u64) -> (r: Result<usize, ConnectorError>)
        requires
            old(self).wf(),
        ensures
            final(self).wf(),
            final(self).config == old(self).config,
            spec_retry_outcome(*old(self), *final(self), r, now),
    {
        let n = self.state.subscription_status.entries.len();
        let ghost m0 = self.statuses();
        let ghost q0 = self.state.pending_queue@;
        let ghost st = self.state.subscription_status;
        let mut count: usize = 0;
        let mut i: usize = 0;
        let ghost mut retried: Set<Seq<char>> = Set::empty();
        while i < n
            invariant
                self.wf(),
                n == st.entries@.len(),
                st.wf(),
                st.view() == m0,
                i <= n,
                self.state.subscription_status.key_seq() == st.key_seq(),
                retried == Set::new(|k: Seq<char>| exists|j: int| 0 <= j < i && #[trigger] st.entries@[j].0@ == k && st.entries@[j].1@ is Failed),
                retried.finite(),
                retried.len() == count,
                count <= i,
                self.statuses() == Map::new(
                    |k: Seq<char>| m0.contains_key(k),
                    |k: Seq<char>| if retried.contains(k) { SubscriptionStatusView::Retrying(1) } else { m0[k] },
                ),
                self.state.pending_queue@.len() == q0.len() + count,
                self.state.pending_queue@.skip(count as int) == q0,
                forall|j: int| 0 <= j < count ==> {
                    let q = #[trigger] self.state.pending_queue@[j];
                    &&& q.priority == 1
                    &&& q.retry_count == 0
                    &&& q.request_time == now
                    &&& q.data_types@ == seq![DataType::OrderBook]
                    &&& retried.contains(q.symbol@)
                },
                forall|j1: int, j2: int| 0 <= j1 < j2 < count ==>
                    (#[trigger] self.state.pending_queue@[j1]).symbol@ != (#[trigger] self.state.pending_queue@[j2]).symbol@,
                self.config == old(self).config,
                self.state.stats == old(self).state.stats,
                self.state.active_batches == old(self).state.active_batches,
                self.state.last_batch_time == old(self).state.last_batch_time,
                self.state.total_batch_time_ms == old(self).state.total_batch_time_ms,
            decreases n - i,
        {
            let ghost k = st.entries@[i as int].0@;
            let ghost old_retried = retried;
            proof {
                st.lemma_entry(i as int);
                assert(self.state.subscription_status.key_seq().len() == n);
                assert(self.state.subscription_status.key_seq()[i as int] == st.key_seq()[i as int]);
                assert(self.state.subscription_status.entries@[i as int].0@ == k);
                self.state.subscription_status.lemma_entry(i as int);
                assert(!old_retried.contains(k)) by {
                    if old_retried.contains(k) {
                        let j = choose|j: int| 0 <= j < i && #[trigger] st.entries@[j].0@ == k && st.entries@[j].1@ is Failed;
                        assert(st.entries@[j].0@ != st.entries@[i as int].0@);
                    }
                }
                assert(self.state.subscription_status.entries@[i as int].1@ == st.entries@[i as int].1@);
            }
            let is_failed = match &self.state.subscription_status.entries[i].1 {
                SubscriptionStatus::Failed(_) => true,
                _ => false,
            };
            if is_failed {
                let symbol = self.state.subscription_status.entries[i].0.clone();
                let request = SubscriptionRequest {
                    symbol: symbol.clone(),
                    data_types: vec![DataType::OrderBook],
                    request_time: now,
                    retry_count: 0,
                    priority: 1,
                };
                let ghost q_before = self.state.pending_queue@;
                self.state.pending_queue.insert(0, request);
                self.state.subscription_status.insert(symbol, SubscriptionStatus::Retrying(1));
                proof {
                    retried = retried.insert(k);
                    assert(self.state.pending_queue@.skip(count + 1) =~= q_before.skip(count as int));
                    assert forall|j: int| 0 <= j < count + 1 implies {
                        let q = #[trigger] self.state.pending_queue@[j];
                        &&& q.priority == 1
                        &&& q.retry_count == 0
                        &&& q.request_time == now
                        &&& q.data_types@ == seq![DataType::OrderBook]
                        &&& retried.contains(q.symbol@)
                    } by {
                        if j > 0 {
                            assert(self.state.pending_queue@[j] == q_before[j - 1]);
                        }
                    }
                    assert forall|j1: int, j2: int| 0 <= j1 < j2 < count + 1 implies
                        (#[trigger] self.state.pending_queue@[j1]).symbol@ != (#[trigger] self.state.pending_queue@[j2]).symbol@ by {
                        assert(self.state.pending_queue@[j2] == q_before[j2 - 1]);
                        assert(old_retried.contains(q_before[j2 - 1].symbol@));
                        if j1 > 0 {
                            assert(self.state.pending_queue@[j1] == q_before[j1 - 1]);
                        }
                    }
                    assert(retried =~= Set::new(|q: Seq<char>| exists|j: int| 0 <= j < i + 1 && #[trigger] st.entries@[j].0@ == q && st.entries@[j].1@ is Failed)) by {
                        assert forall|q: Seq<char>| retried.contains(q) implies (exists|j: int| 0 <= j < i + 1 && #[trigger] st.entries@[j].0@ == q && st.entries@[j].1@ is Failed) by {
                            if q == k {
                                assert(st.entries@[i as int].0@ == q);
                            } else {
                                let j = choose|j: int| 0 <= j < i && #[trigger] st.entries@[j].0@ == q && st.entries@[j].1@ is Failed;
                                assert(0 <= j < i + 1);
                            }
                        }
                        assert forall|q: Seq<char>| (exists|j: int| 0 <= j < i + 1 && #[trigger] st.entries@[j].0@ == q && st.entries@[j].1@ is Failed) implies retried.contains(q) by {
                            let j = choose|j: int| 0 <= j < i + 1 && #[trigger] st.entries@[j].0@ == q && st.entries@[j].1@ is Failed;
                            if j < i {
                                assert(old_retried.contains(q));
                            }
                        }
                    }
                    assert(m0[k] is Failed);
                    assert(self.statuses() =~= Map::new(
                        |q: Seq<char>| m0.contains_key(q),
                        |q: Seq<char>| if retried.contains(q) { SubscriptionStatusView::Retrying(1) } else { m0[q] },
                    ));
                }
                count = count + 1;
            } else {
                proof {
                    assert(retried =~= Set::new(|q: Seq<char>| exists|j: int| 0 <= j < i + 1 && #[trigger] st.entries@[j].0@ == q && st.entries@[j].1@ is Failed)) by {
                        assert forall|q: Seq<char>| (exists|j: int| 0 <= j < i + 1 && #[trigger] st.entries@[j].0@ == q && st.entries@[j].1@ is Failed) implies retried.contains(q) by {
                            let j = choose|j: int| 0 <= j < i + 1 && #[trigger] st.entries@[j].0@ == q && st.entries@[j].1@ is Failed;
                            if j == i {
                                assert(!(st.entries@[i as int].1@ is Failed));
                            }
                        }
                    }
                }
            }
            i = i + 1;
        }
        proof {
            let failed_keys = m0.dom().filter(|k: Seq<char>| m0[k] is Failed);
            assert(retried =~= failed_keys) by {
                assert forall|k: Seq<char>| retried.contains(k) implies failed_keys.contains(k) by {
                    let j = choose|j: int| 0 <= j < n && #[trigger] st.entries@[j].0@ == k && st.entries@[j].1@ is Failed;
                    st.lemma_entry(j);
                }
                assert forall|k: Seq<char>| failed_keys.contains(k) implies retried.contains(k) by {
                    let j = st.index_of(k);
                    st.lemma_entry(j);
                }
            }
        }
        self.state.stats.queue_length = self.state.pending_queue.len();
        proof {
            assert(self.statuses() =~= Map::new(
                |k: Seq<char>| m0.contains_key(k),
                |k: Seq<char>| if m0[k] is Failed { SubscriptionStatusView::Retrying(1) } else { m0[k] },
            ));
            assert(self.state.pending_queue@.skip(count as int) =~= q0);
        }
        Ok(count)
    }

    /// Queues every failed symbol again, stamped with the system clock.
    pub fn retry_failed_subscriptions(&mut self) -> (r: Result<usize, ConnectorError>)
        requires
            old(self).wf(),
        ensures
            final(self).wf(),
            exists|now: u64| #[trigger] spec_retry_outcome(*old(self), *final(self), r, now),
    {
        let now = now_millis();
        let ghost a = *self;
        let r = self.retry_failed_subscriptions_at(now);
        assert(spec_retry_outcome(a, *self, r, now));
        r
    }

    /// The state of `symbol`, if it was ever requested.
    pub fn get_subscription_status(&self, symbol: &str) -> (r: Option<SubscriptionStatus>)
        requires
            self.wf(),
        ensures
            match r {
                Some(s) => self.statuses().contains_key(symbol@) && s@ == self.statuses()[symbol@],
                None => !self.statuses().contains_key(symbol@),
            },
    {
        match self.state.subscription_status.get(symbol) {
            Some(s) => Some(clone_status(s)),
            None => None,
        }
    }

    /// Every symbol with its state, in the order the symbols were first requested.
    pub fn get_all_subscription_status(&self) -> (r: Vec<(String, SubscriptionStatus)>)
        requires
            self.wf(),
        ensures
            r@.len() == self.state.subscription_status.entries@.len(),
            forall|i: int| 0 <= i < r@.len() ==> {
                &&& (#[trigger] r@[i]).0@ == self.state.subscription_status.entries@[i].0@
                &&& r@[i].1@ == self.state.subscription_status.entries@[i].1@
            },
    {
        let n = self.state.subscription_status.entries.len();
        let mut out: Vec<(String, SubscriptionStatus)> = Vec::new();
        let mut i: usize = 0;
        while i < n
            invariant
                n == self.state.subscription_status.entries@.len(),
                i <= n,
                out@.len() == i,
                forall|j: int| 0 <= j < i ==> {
                    &&& (#[trigger] out@[j]).0@ == self.state.subscription_status.entries@[j].0@
                    &&& out@[j].1@ == self.state.subscription_status.entries@[j].1@
                },
            decreases n - i,
        {
            let e = &self.state.subscription_status.entries[i];
            out.push((e.0.clone(), clone_status(&e.1)));
            i = i + 1;
        }
        out
    }

    /// The counters.
    pub fn get_stats(&self) -> (r: BatchSubscriptionStats)
        ensures
            r == self.state.stats,
    {
        self.state.stats
    }

    /// Drops every queued request.
    pub fn clear_queue(&mut self)
        ensures
            final(self).config == old(self).config,
            final(self).state.pending_queue@.len() == 0,
            final(self).state.subscription_status == old(self).state.subscription_status,
            final(self).state.active_batches == old(self).state.active_batches,
            final(self).state.stats == (BatchSubscriptionStats { queue_length: 0, ..old(self).state.stats }),
            final(self).state.last_batch_time == old(self).state.last_batch_time,
            final(self).state.total_batch_time_ms == old(self).state.total_batch_time_ms,
    {
        self.state.pending_queue.clear();
        self.state.stats.queue_length = 0;
    }

    /// How many requests wait.
    pub fn get_queue_length(&self) -> (n: usize)
        ensures
            n == self.state.pending_queue@.len(),
    {
        self.state.pending_queue.len()
    }

    /// Whether any request waits.
    pub fn has_pending_requests(&self) -> (b: bool)
        ensures
            b == (self.state.pending_queue@.len() > 0),
    {
        self.state.pending_queue.len() > 0
    }

    /// Replaces the settings.
    pub fn update_config(&mut self, new_config: BatchSubscriptionConfig)
        ensures
            final(self).config == new_config,
            final(self).state == old(self).state,
    {
        self.config = new_config;
    }
}

/// Whether an identifier has the form of a batch identifier.
pub open spec fn spec_starts_with_batch(id: Seq<char>) -> bool {
    crate::text::spec_starts_with(id, "batch_"@)
}

/// Copies a subscription state.
pub fn clone_status(s: &SubscriptionStatus) -> (r: SubscriptionStatus)
    ensures
        r@ == s@,
{
    match s {
        SubscriptionStatus::Pending => SubscriptionStatus::Pending,
        SubscriptionStatus::Subscribing => SubscriptionStatus::Subscribing,
        SubscriptionStatus::Active => SubscriptionStatus::Active,
        SubscriptionStatus::Failed(m) => SubscriptionStatus::Failed(m.clone()),
        SubscriptionStatus::Retrying(n) => SubscriptionStatus::Retrying(*n),
    }
}

/// The index of the last answer for `symbol`, if any.
pub fn last_answer(results: &Vec<(String, bool, Option<String>)>, symbol: &str) -> (r: Option<usize>)
    ensures
        match r {
            Some(i) => i < results@.len() && spec_answered(results@, symbol@) && spec_last_answer(results@, symbol@) == i,
            None => !spec_answered(results@, symbol@),
        },
{
    let mut i: usize = results.len();
    while i > 0
        invariant
            i <= results@.len(),
            forall|j: int| i <= j < results@.len() ==> #[trigger] results@[j].0@ != symbol@,
        decreases i,
    {
        if crate::text::str_equals(results[i - 1].0.as_str(), symbol) {
            let ghost k = symbol@;
            let ghost idx = (i - 1) as int;
            proof {
                assert(spec_answered(results@, k));
                let c = spec_last_answer(results@, k);
                assert(0 <= idx < results@.len() && results@[idx].0@ == k && forall|j: int| idx < j < results@.len() ==> #[trigger] results@[j].0@ != k);
                if c != idx {
                    if c < idx {
                        assert(results@[idx].0@ != k);
                    } else {
                        assert(results@[c].0@ != k);
                    }
                }
            }
            return Some(i - 1);
        }
        i = i - 1;
    }
    None
}

/// Adding a request to a list adds its symbol to those the list mentions.
pub proof fn lemma_mentions_push(reqs: Seq<SubscriptionRequest>, r: SubscriptionRequest)
    ensures
        forall|k: Seq<char>| #[trigger] spec_mentions(reqs.push(r), k) == (spec_mentions(reqs, k) || k == r.symbol@),
{
    assert forall|k: Seq<char>| #[trigger] spec_mentions(reqs.push(r), k) == (spec_mentions(reqs, k) || k == r.symbol@) by {
        let t = reqs.push(r);
        if spec_mentions(t, k) {
            let j = choose|j: int| 0 <= j < t.len() && #[trigger] t[j].symbol@ == k;
            if j < reqs.len() {
                assert(reqs[j].symbol@ == k);
            }
        }
        if spec_mentions(reqs, k) {
            let j = choose|j: int| 0 <= j < reqs.len() && #[trigger] reqs[j].symbol@ == k;
            assert(t[j].symbol@ == k);
        }
        if k == r.symbol@ {
            assert(t[reqs.len() as int].symbol@ == k);
        }
    }
}

/// Queuing keeps the queue ordered by priority: a request placed where
/// `add_subscription_request` places it leaves a sorted queue sorted.
pub proof fn lemma_insert_keeps_sorted(q: Seq<SubscriptionRequest>, req: SubscriptionRequest, pos: int)
    requires
        is_priority_sorted(q),
        is_insert_pos(q, req.priority, pos),
    ensures
        is_priority_sorted(q.insert(pos, req)),
{
    let q2 = q.insert(pos, req);
    assert forall|i: int, j: int| 0 <= i <= j < q2.len() implies #[trigger] q2[i].priority <= #[trigger] q2[j].priority by {
        if i < pos && j < pos {
            assert(q2[i] == q[i] && q2[j] == q[j]);
        } else if i < pos && j == pos {
            assert(q2[i] == q[i]);
        } else if i < pos {
            assert(q2[i] == q[i] && q2[j] == q[j - 1]);
        } else if i == pos && j == pos {
        } else if i == pos {
            assert(q2[j] == q[j - 1]);
            assert(q[pos].priority > req.priority);
            assert(q[pos].priority <= q[j - 1].priority);
        } else {
            assert(q2[i] == q[i - 1] && q2[j] == q[j - 1]);
        }
    }
}

/// Taking a batch off a sorted queue leaves it sorted, and the batch never holds a request
/// of a larger priority than one left behind.
pub proof fn lemma_batch_takes_most_urgent(q: Seq<SubscriptionRequest>, n: int)
    requires
        is_priority_sorted(q),
        0 <= n <= q.len(),
    ensures
        is_priority_sorted(q.skip(n)),
        forall|i: int, j: int| 0 <= i < n && 0 <= j < q.len() - n ==> #[trigger] q.take(n)[i].priority <= #[trigger] q.skip(n)[j].priority,
{
    assert forall|i: int, j: int| 0 <= i <= j < q.skip(n).len() implies #[trigger] q.skip(n)[i].priority <= #[trigger] q.skip(n)[j].priority by {
        assert(q.skip(n)[i] == q[i + n] && q.skip(n)[j] == q[j + n]);
    }
    assert forall|i: int, j: int| 0 <= i < n && 0 <= j < q.len() - n implies #[trigger] q.take(n)[i].priority <= #[trigger] q.skip(n)[j].priority by {
        assert(q.take(n)[i] == q[i] && q.skip(n)[j] == q[j + n]);
    }
}

} // verus!
