//! Subscriptions by symbol and data type, kept idempotent: subscribing to what is already
//! subscribed changes nothing, and only new pairs are added. New pairs are grouped by the
//! connection strategy and placed on a connection of their group, which is created when
//! none has room. Broadcasting the events returned here, and the wait while a connection
//! is established, belong to the caller. Times are milliseconds.
use vstd::prelude::*;
use vstd::string::StringSliceAdditionalSpecFns;
use crate::str_map::StrMap;
use crate::text::{decimal_text, ends_with, lower_case_of, owned, spec_decimal, spec_ends_with, starts_with, spec_starts_with, to_lower};

verus! {

/// Kinds of subscribed data.
#[derive(Debug, Clone, Copy, PartialEq, Eq, Hash, Structural)]
pub enum DataType {
    OrderBook,
    Trade,
    Ticker,
    Kline,
    UserData,
    AccountUpdate,
    OrderUpdate,
}

/// The name of a data type as it appears in keys and stream names.
pub open spec fn data_type_name(d: DataType) -> Seq<char> {
    match d {
        DataType::OrderBook => "OrderBook"@,
        DataType::Trade => "Trade"@,
        DataType::Ticker => "Ticker"@,
        DataType::Kline => "Kline"@,
        DataType::UserData => "UserData"@,
        DataType::AccountUpdate => "AccountUpdate"@,
        DataType::OrderUpdate => "OrderUpdate"@,
    }
}

/// The name of a data type.
pub fn data_type_text(d: DataType) -> (r: &'static str)
    ensures
        r@ == data_type_name(d),
{
    match d {
        DataType::OrderBook => "OrderBook",
        DataType::Trade => "Trade",
        DataType::Ticker => "Ticker",
        DataType::Kline => "Kline",
        DataType::UserData => "UserData",
        DataType::AccountUpdate => "AccountUpdate",
        DataType::OrderUpdate => "OrderUpdate",
    }
}

/// Priority of a subscription request.
#[derive(Debug, Clone, Copy, PartialEq, Eq, Structural)]
pub enum SubscriptionPriority {
    Low,
    Medium,
    High,
    Critical,
}

/// State of a subscription.
#[derive(Debug, Clone)]
pub enum SubscriptionStatus {
    Pending,
    Active,
    Paused,
    Failed(String),
    Cancelled,
}

/// A subscription request: every symbol with every data type.
#[derive(Debug, Clone)]
pub struct SubscriptionConfig {
    pub symbols: Vec<String>,
    pub data_types: Vec<DataType>,
    pub batch_size: Option<usize>,
    pub priority: SubscriptionPriority,
}

/// One subscription.
#[derive(Debug)]
pub struct SubscriptionItem {
    pub symbol: String,
    pub data_type: DataType,
    pub status: SubscriptionStatus,
    pub created_at: u64,
    pub updated_at: u64,
    pub retry_count: u32,
}

/// The state of a subscription as a value.
pub enum SubscriptionStatusView {
    Pending,
    Active,
    Paused,
    Failed(Seq<char>),
    Cancelled,
}

/// The value of a subscription state.
pub open spec fn subscription_status_view(s: SubscriptionStatus) -> SubscriptionStatusView {
    match s {
        SubscriptionStatus::Pending => SubscriptionStatusView::Pending,
        SubscriptionStatus::Active => SubscriptionStatusView::Active,
        SubscriptionStatus::Paused => SubscriptionStatusView::Paused,
        SubscriptionStatus::Failed(m) => SubscriptionStatusView::Failed(m@),
        SubscriptionStatus::Cancelled => SubscriptionStatusView::Cancelled,
    }
}

/// A subscription as values: symbol, data type, state, times and retries.
pub struct SubscriptionItemView {
    pub symbol: Seq<char>,
    pub data_type: DataType,
    pub status: SubscriptionStatusView,
    pub created_at: u64,
    pub updated_at: u64,
    pub retry_count: u32,
}

impl View for SubscriptionItem {
    type V = SubscriptionItemView;

    open spec fn view(&self) -> SubscriptionItemView {
        SubscriptionItemView {
            symbol: self.symbol@,
            data_type: self.data_type,
            status: subscription_status_view(self.status),
            created_at: self.created_at,
            updated_at: self.updated_at,
            retry_count: self.retry_count,
        }
    }
}

/// State of a connection.
#[derive(Debug, Clone)]
pub enum ConnectionStatus {
    Connecting,
    Connected,
    Disconnected,
    Failed(String),
}

/// A connection and the streams it carries.
#[derive(Debug)]
pub struct WebSocketConnection {
    pub id: String,
    pub url: String,
    pub streams: Vec<String>,
    pub status: ConnectionStatus,
    pub created_at: u64,
    pub last_active: u64,
}

/// The texts of a list of strings.
pub open spec fn texts(v: Seq<String>) -> Seq<Seq<char>> {
    v.map_values(|x: String| x@)
}

/// The state of a connection as a value.
pub enum ConnectionStatusView {
    Connecting,
    Connected,
    Disconnected,
    Failed(Seq<char>),
}

/// The value of a connection state.
pub open spec fn connection_status_view(s: ConnectionStatus) -> ConnectionStatusView {
    match s {
        ConnectionStatus::Connecting => ConnectionStatusView::Connecting,
        ConnectionStatus::Connected => ConnectionStatusView::Connected,
        ConnectionStatus::Disconnected => ConnectionStatusView::Disconnected,
        ConnectionStatus::Failed(m) => ConnectionStatusView::Failed(m@),
    }
}

/// A connection as values.
pub struct WebSocketConnectionView {
    pub id: Seq<char>,
    pub url: Seq<char>,
    pub streams: Seq<Seq<char>>,
    pub status: ConnectionStatusView,
    pub created_at: u64,
    pub last_active: u64,
}

impl View for WebSocketConnection {
    type V = WebSocketConnectionView;

    open spec fn view(&self) -> WebSocketConnectionView {
        WebSocketConnectionView {
            id: self.id@,
            url: self.url@,
            streams: texts(self.streams@),
            status: connection_status_view(self.status),
            created_at: self.created_at,
            last_active: self.last_active,
        }
    }
}

/// Errors of the subscription manager.
#[derive(Debug, Clone)]
pub enum SubscriptionManagerError {
    SubscriptionExists { symbol: String, data_type: DataType },
    SubscriptionNotFound { symbol: String, data_type: DataType },
    WebSocketConnectionFailed(String),
    ConfigError(String),
    NetworkError(String),
    SerializationError(String),
}

/// The text of an error.
pub open spec fn spec_subscription_error_text(e: SubscriptionManagerError) -> Seq<char> {
    match e {
        SubscriptionManagerError::SubscriptionExists { symbol, data_type } =>
            "订阅已存在: "@ + symbol@ + "@"@ + data_type_name(data_type),
        SubscriptionManagerError::SubscriptionNotFound { symbol, data_type } =>
            "订阅不存在: "@ + symbol@ + "@"@ + data_type_name(data_type),
        SubscriptionManagerError::WebSocketConnectionFailed(m) => "WebSocket连接失败: "@ + m@,
        SubscriptionManagerError::ConfigError(m) => "配置错误: "@ + m@,
        SubscriptionManagerError::NetworkError(m) => "网络错误: "@ + m@,
        SubscriptionManagerError::SerializationError(m) => "序列化错误: "@ + m@,
    }
}

impl SubscriptionManagerError {
    /// The text of the error.
    pub fn message(&self) -> (r: String)
        ensures
            r@ == spec_subscription_error_text(*self),
    {
        match self {
            SubscriptionManagerError::SubscriptionExists { symbol, data_type } =>
                owned("订阅已存在: ").concat(symbol.as_str()).concat("@").concat(data_type_text(*data_type)),
            SubscriptionManagerError::SubscriptionNotFound { symbol, data_type } =>
                owned("订阅不存在: ").concat(symbol.as_str()).concat("@").concat(data_type_text(*data_type)),
            SubscriptionManagerError::WebSocketConnectionFailed(m) => owned("WebSocket连接失败: ").concat(m.as_str()),
            SubscriptionManagerError::ConfigError(m) => owned("配置错误: ").concat(m.as_str()),
            SubscriptionManagerError::NetworkError(m) => owned("网络错误: ").concat(m.as_str()),
            SubscriptionManagerError::SerializationError(m) => owned("序列化错误: ").concat(m.as_str()),
        }
    }
}

/// Settings of the manager. Durations are in milliseconds.
#[derive(Debug, Clone, Copy, PartialEq, Eq, Structural)]
pub struct SubscriptionManagerConfig {
    pub max_connections: usize,
    pub max_streams_per_connection: usize,
    pub retry_interval_ms: u64,
    pub max_retry_attempts: u32,
    pub connection_timeout_ms: u64,
    pub heartbeat_interval_ms: u64,
}

impl Default for SubscriptionManagerConfig {
    fn default() -> (r: Self)
        ensures
            r == (SubscriptionManagerConfig {
                max_connections: 5,
                max_streams_per_connection: 200,
                retry_interval_ms: 5000,
                max_retry_attempts: 3,
                connection_timeout_ms: 30000,
                heartbeat_interval_ms: 30000,
            }),
    {
        SubscriptionManagerConfig {
            max_connections: 5,
            max_streams_per_connection: 200,
            retry_interval_ms: 5000,
            max_retry_attempts: 3,
            connection_timeout_ms: 30000,
            heartbeat_interval_ms: 30000,
        }
    }
}

/// How subscriptions are spread over connections.
#[derive(Debug, Clone, Copy, PartialEq, Eq, Structural)]
pub enum ConnectionStrategy {
    SingleConnection,
    GroupByDataType,
    GroupByMarketType,
    LoadBalanced,
}

/// What happened to subscriptions and connections.
#[derive(Debug, Clone)]
pub enum SubscriptionEvent {
    SubscriptionAdded { symbol: String, data_type: DataType, timestamp: u64 },
    SubscriptionRemoved { symbol: String, data_type: DataType, timestamp: u64 },
    SubscriptionFailed { symbol: String, data_type: DataType, error: String, timestamp: u64 },
    ConnectionEstablished { connection_id: String, timestamp: u64 },
    ConnectionLost { connection_id: String, reason: String, timestamp: u64 },
}

/// Counts of subscriptions and connections.
#[derive(Debug, Clone, Copy, PartialEq, Eq, Structural)]
pub struct SubscriptionManagerHealth {
    pub total_subscriptions: usize,
    pub active_subscriptions: usize,
    pub failed_subscriptions: usize,
    pub total_connections: usize,
    pub active_connections: usize,
    pub last_checked: u64,
}

/// The key of a subscription: `symbol@DataType`.
pub open spec fn spec_subscription_key(symbol: Seq<char>, d: DataType) -> Seq<char> {
    symbol + "@"@ + data_type_name(d)
}

/// The pairs of a request, symbol by symbol, each with every data type in order.
pub open spec fn spec_pairs(symbols: Seq<Seq<char>>, types: Seq<DataType>) -> Seq<(Seq<char>, DataType)>
    decreases symbols.len(),
{
    if symbols.len() == 0 {
        Seq::empty()
    } else {
        spec_pairs(symbols.drop_last(), types) + types.map_values(|d: DataType| (symbols.last(), d))
    }
}

/// An active subscription made at `now`.
pub open spec fn spec_new_item(symbol: Seq<char>, d: DataType, now: u64) -> SubscriptionItemView {
    SubscriptionItemView {
        symbol,
        data_type: d,
        status: SubscriptionStatusView::Active,
        created_at: now,
        updated_at: now,
        retry_count: 0,
    }
}

/// The subscriptions after adding each pair of `pairs` that `old` does not hold, in
/// order.
pub open spec fn spec_add_pairs(
    old: Map<Seq<char>, SubscriptionItemView>,
    cur: Map<Seq<char>, SubscriptionItemView>,
    pairs: Seq<(Seq<char>, DataType)>,
    now: u64,
) -> Map<Seq<char>, SubscriptionItemView>
    decreases pairs.len(),
{
    if pairs.len() == 0 {
        cur
    } else {
        let m = spec_add_pairs(old, cur, pairs.drop_last(), now);
        let p = pairs.last();
        let k = spec_subscription_key(p.0, p.1);
        if old.contains_key(k) { m } else { m.insert(k, spec_new_item(p.0, p.1, now)) }
    }
}

/// The subscriptions after removing the key of each pair.
pub open spec fn spec_remove_pairs(
    m: Map<Seq<char>, SubscriptionItemView>,
    pairs: Seq<(Seq<char>, DataType)>,
) -> Map<Seq<char>, SubscriptionItemView>
    decreases pairs.len(),
{
    if pairs.len() == 0 {
        m
    } else {
        spec_remove_pairs(m, pairs.drop_last()).remove(spec_subscription_key(pairs.last().0, pairs.last().1))
    }
}

/// The group of a subscription under a strategy: one group, one per data type, spot for
/// symbols quoted in USDT or BUSD and futures otherwise, or by the byte length of the
/// symbol modulo the number of connections.
pub open spec fn spec_group_key(s: ConnectionStrategy, symbol: Seq<char>, d: DataType, max_connections: nat) -> Seq<char> {
    let byte_len = (vstd::utf8::encode_utf8(symbol).len() as usize) as nat;
    match s {
        ConnectionStrategy::SingleConnection => "main"@,
        ConnectionStrategy::GroupByDataType => data_type_name(d),
        ConnectionStrategy::GroupByMarketType => if spec_ends_with(symbol, "USDT"@) || spec_ends_with(symbol, "BUSD"@) {
            "spot"@
        } else {
            "futures"@
        },
        ConnectionStrategy::LoadBalanced => "conn_"@ + spec_decimal(byte_len % max_connections),
    }
}

/// The URL of a connection for a group.
pub open spec fn spec_websocket_url(key: Seq<char>) -> Seq<char> {
    "wss://stream.binance.com:9443/ws/"@ + key
}

/// The stream name of a subscription: lower case of the lower-cased symbol, `@` and the
/// data type.
pub open spec fn spec_stream_name(symbol: Seq<char>, d: DataType) -> Seq<char> {
    lower_case_of(lower_case_of(symbol) + "@"@ + data_type_name(d))
}

/// Tracks subscriptions and the connections that carry them.
#[derive(Debug)]
pub struct SubscriptionManager {
    pub subscriptions: StrMap<SubscriptionItem>,
    pub connections: StrMap<WebSocketConnection>,
    pub config: SubscriptionManagerConfig,
    pub connection_strategy: ConnectionStrategy,
}

/// Copies a data type list.
pub fn copy_types(v: &Vec<DataType>) -> (r: Vec<DataType>)
    ensures
        r@ == v@,
{
    let r = v.clone();
    assert(r@ =~= v@);
    r
}

/// Whether connection `c` can take the streams of group `key`: it is connected, has room,
/// and its identifier starts with the key.
pub open spec fn spec_usable(c: WebSocketConnectionView, id: Seq<char>, key: Seq<char>, max_streams: nat) -> bool {
    c.status is Connected && c.streams.len() < max_streams && spec_starts_with(id, key)
}

impl SubscriptionManager {
    /// The tables are well formed and each connection's streams are distinct.
    pub open spec fn wf(&self) -> bool {
        &&& self.subscriptions.wf()
        &&& self.connections.wf()
    }

    /// The subscriptions, by key.
    pub open spec fn subs(&self) -> Map<Seq<char>, SubscriptionItemView> {
        self.subscriptions.view()
    }

    /// The connections, by identifier.
    pub open spec fn conns(&self) -> Map<Seq<char>, WebSocketConnectionView> {
        self.connections.view()
    }

    /// A manager with no subscriptions and no connections.
    pub fn new(config: SubscriptionManagerConfig, strategy: ConnectionStrategy) -> (r: Self)
        ensures
            r.wf(),
            r.config == config,
            r.connection_strategy == strategy,
            r.subs() == Map::<Seq<char>, SubscriptionItemView>::empty(),
            r.conns() == Map::<Seq<char>, WebSocketConnectionView>::empty(),
    {
        SubscriptionManager {
            subscriptions: StrMap::new(),
            connections: StrMap::new(),
            config,
            connection_strategy: strategy,
        }
    }

    /// The key of a subscription.
    pub fn subscription_key(&self, symbol: &str, data_type: DataType) -> (r: String)
        ensures
            r@ == spec_subscription_key(symbol@, data_type),
    {
        owned(symbol).concat("@").concat(data_type_text(data_type))
    }

    /// The group of a subscription under the manager's strategy.
    pub fn group_key(&self, symbol: &str, data_type: DataType) -> (r: String)
        requires
            self.connection_strategy == ConnectionStrategy::LoadBalanced ==> self.config.max_connections > 0,
        ensures
            r@ == spec_group_key(self.connection_strategy, symbol@, data_type, self.config.max_connections as nat),
    {
        proof {
            reveal_strlit("USDT");
            reveal_strlit("BUSD");
        }
        match self.connection_strategy {
            ConnectionStrategy::SingleConnection => owned("main"),
            ConnectionStrategy::GroupByDataType => owned(data_type_text(data_type)),
            ConnectionStrategy::GroupByMarketType => {
                let a = ends_with(symbol, "USDT");
                let b = ends_with(symbol, "BUSD");
                if a || b {
                    owned("spot")
                } else {
                    owned("futures")
                }
            },
            ConnectionStrategy::LoadBalanced => {
                let hash = symbol.len() % self.config.max_connections;
                let r = owned("conn_").concat(decimal_text(hash as u128).as_str());
                r
            },
        }
    }

    /// The URL of a connection for a group.
    pub fn build_websocket_url(&self, connection_key: &str) -> (r: String)
        ensures
            r@ == spec_websocket_url(connection_key@),
    {
        owned("wss://stream.binance.com:9443/ws/").concat(connection_key)
    }

    /// The connection to use for group `key`: the first connected one with room whose
    /// identifier starts with the key, else a new one named `key_<seconds of now>`, which
    /// is opened at once. Where a connection of that name is already in the pool (full or
    /// not connected), it is used as it is rather than replaced, so that the streams it
    /// carries are not lost. The second part of the result says whether it is new.
    pub fn get_or_create_connection_at(&mut self, key: &str, now: u64) -> (r: (String, bool))
        requires
            old(self).wf(),
        ensures
            final(self).wf(),
            final(self).config == old(self).config,
            final(self).connection_strategy == old(self).connection_strategy,
            final(self).subscriptions == old(self).subscriptions,
            !r.1 ==> {
                &&& final(self).conns() == old(self).conns()
                &&& old(self).conns().contains_key(r.0@)
                &&& spec_starts_with(r.0@, key@)
                &&& (spec_usable(old(self).conns()[r.0@], r.0@, key@, old(self).config.max_streams_per_connection as nat)
                    || r.0@ == key@ + "_"@ + spec_decimal((now / 1000) as nat))
            },
            r.1 ==> {
                &&& r.0@ == key@ + "_"@ + spec_decimal((now / 1000) as nat)
                &&& !old(self).conns().contains_key(r.0@)
                &&& forall|id: Seq<char>| #[trigger] old(self).conns().contains_key(id)
                    ==> !spec_usable(old(self).conns()[id], id, key@, old(self).config.max_streams_per_connection as nat)
                &&& final(self).conns() == old(self).conns().insert(r.0@, WebSocketConnectionView {
                    id: r.0@,
                    url: spec_websocket_url(key@),
                    streams: Seq::empty(),
                    status: ConnectionStatusView::Connected,
                    created_at: now,
                    last_active: now,
                })
            },
    {
        let n = self.connections.entries.len();
        let mut i: usize = 0;
        while i < n
            invariant
                self.wf(),
                n == self.connections.entries@.len(),
                i <= n,
                forall|j: int| 0 <= j < i ==> !spec_usable(#[trigger] self.connections.entries@[j].1@, self.connections.entries@[j].0@,
                    key@, self.config.max_streams_per_connection as nat),
            decreases n - i,
        {
            let e = &self.connections.entries[i];
            let connected = match &e.1.status {
                ConnectionStatus::Connected => true,
                _ => false,
            };
            if connected && e.1.streams.len() < self.config.max_streams_per_connection && starts_with(e.0.as_str(), key) {
                proof {
                    self.connections.lemma_entry(i as int);
                }
                return (e.0.clone(), false);
            }
            i = i + 1;
        }
        proof {
            assert forall|id: Seq<char>| #[trigger] self.conns().contains_key(id)
                implies !spec_usable(self.conns()[id], id, key@, self.config.max_streams_per_connection as nat) by {
                let j = self.connections.index_of(id);
                self.connections.lemma_entry(j);
            }
        }
        let id = owned(key).concat("_").concat(decimal_text((now / 1000) as u128).as_str());
        proof {
            reveal_strlit("_");
            assert(id@.subrange(0, key@.len() as int) =~= key@);
        }
        if self.connections.contains(id.as_str()) {
            return (id, false);
        }
        let connection = WebSocketConnection {
            id: id.clone(),
            url: self.build_websocket_url(key),
            streams: Vec::new(),
            status: ConnectionStatus::Connected,
            created_at: now,
            last_active: now,
        };
        proof {
            assert(texts(connection.streams@) =~= Seq::<Seq<char>>::empty());
        }
        self.connections.insert(id.clone(), connection);
        (id, true)
    }

    /// Adds the stream of each subscription to connection `connection_id`, unless it carries
    /// it already, and marks the connection active at `now`.
    pub fn update_connection_streams_at(&mut self, connection_id: &str, subs: &Vec<(String, DataType)>, now: u64)
        requires
            old(self).wf(),
        ensures
            final(self).wf(),
            final(self).config == old(self).config,
            final(self).connection_strategy == old(self).connection_strategy,
            final(self).subscriptions == old(self).subscriptions,
            final(self).conns().dom() == old(self).conns().dom(),
            !old(self).conns().contains_key(connection_id@) ==> final(self).conns() == old(self).conns(),
            old(self).conns().contains_key(connection_id@) ==> {
                let before = old(self).conns()[connection_id@];
                let after = final(self).conns()[connection_id@];
                &&& after.id == before.id
                &&& after.url == before.url
                &&& after.status == before.status
                &&& after.created_at == before.created_at
                &&& after.last_active == now
                &&& forall|j: int| 0 <= j < before.streams.len() ==> after.streams.contains(#[trigger] before.streams[j])
                &&& forall|j: int| 0 <= j < subs@.len() ==> after.streams.contains(
                    #[trigger] spec_stream_name(subs@[j].0@, subs@[j].1))
                &&& forall|x: Seq<char>| #[trigger] after.streams.contains(x) ==> before.streams.contains(x)
                    || exists|j: int| 0 <= j < subs@.len() && x == #[trigger] spec_stream_name(subs@[j].0@, subs@[j].1)
                &&& forall|id: Seq<char>| id != connection_id@ && #[trigger] old(self).conns().contains_key(id)
                    ==> final(self).conns()[id] == old(self).conns()[id]
            },
    {
        let idx = match self.connections.find(connection_id) {
            Some(i) => i,
            None => {
                return;
            },
        };
        proof {
            self.connections.lemma_entry(idx as int);
        }
        let c = &self.connections.entries[idx].1;
        let mut streams: Vec<String> = Vec::new();
        let m = c.streams.len();
        let mut k: usize = 0;
        while k < m
            invariant
                m == c.streams@.len(),
                k <= m,
                texts(streams@) == texts(c.streams@.take(k as int)),
            decreases m - k,
        {
            let ghost s0 = streams@;
            streams.push(c.streams[k].clone());
            proof {
                assert(c.streams@.take(k + 1) =~= c.streams@.take(k as int).push(c.streams@[k as int]));
                assert(texts(streams@) =~= texts(s0).push(c.streams@[k as int]@));
                assert(texts(c.streams@.take(k + 1)) =~= texts(c.streams@.take(k as int)).push(c.streams@[k as int]@));
                assert(texts(streams@) =~= texts(c.streams@.take(k + 1)));
            }
            k = k + 1;
        }
        proof {
            assert(c.streams@.take(m as int) =~= c.streams@);
        }
        let ghost before = texts(streams@);
        let n = subs.len();
        let mut i: usize = 0;
        while i < n
            invariant
                n == subs@.len(),
                i <= n,
                forall|j: int| 0 <= j < before.len() ==> texts(streams@).contains(#[trigger] before[j]),
                forall|j: int| 0 <= j < i ==> texts(streams@).contains(
                    #[trigger] spec_stream_name(subs@[j].0@, subs@[j].1)),
                forall|x: Seq<char>| #[trigger] texts(streams@).contains(x) ==> before.contains(x)
                    || exists|j: int| 0 <= j < i && x == #[trigger] spec_stream_name(subs@[j].0@, subs@[j].1),
            decreases n - i,
        {
            let lowered = to_lower(subs[i].0.as_str());
            let joined = lowered.concat("@").concat(data_type_text(subs[i].1));
            let stream = to_lower(joined.as_str());
            let ghost x = stream@;
            let ghost sv0 = texts(streams@);
            if !contains_text(&streams, stream.as_str()) {
                streams.push(stream);
                proof {
                    let sv1 = texts(streams@);
                    assert(sv1 =~= sv0.push(x));
                    assert(sv1[sv0.len() as int] == x);
                    assert forall|j: int| 0 <= j < before.len() implies sv1.contains(#[trigger] before[j]) by {
                        let t = choose|t: int| 0 <= t < sv0.len() && #[trigger] sv0[t] == before[j];
                        assert(sv1[t] == before[j]);
                    }
                    assert forall|j: int| 0 <= j < i + 1 implies sv1.contains(#[trigger] spec_stream_name(subs@[j].0@, subs@[j].1)) by {
                        if j < i {
                            let t = choose|t: int| 0 <= t < sv0.len() && #[trigger] sv0[t] == spec_stream_name(subs@[j].0@, subs@[j].1);
                            assert(sv1[t] == sv0[t]);
                        }
                    }
                    assert forall|y: Seq<char>| #[trigger] sv1.contains(y) implies before.contains(y)
                        || exists|j: int| 0 <= j < i + 1 && y == #[trigger] spec_stream_name(subs@[j].0@, subs@[j].1) by {
                        let t = choose|t: int| 0 <= t < sv1.len() && #[trigger] sv1[t] == y;
                        if t < sv0.len() {
                            assert(sv0[t] == y);
                            assert(sv0.contains(y));
                        } else {
                            assert(y == spec_stream_name(subs@[i as int].0@, subs@[i as int].1));
                        }
                    }
                }
            } else {
                proof {
                    assert forall|y: Seq<char>| #[trigger] sv0.contains(y) implies before.contains(y)
                        || exists|j: int| 0 <= j < i + 1 && y == #[trigger] spec_stream_name(subs@[j].0@, subs@[j].1) by {
                        if !before.contains(y) {
                            let j = choose|j: int| 0 <= j < i && y == #[trigger] spec_stream_name(subs@[j].0@, subs@[j].1);
                            assert(0 <= j < i + 1);
                        }
                    }
                }
            }
            i = i + 1;
        }
        let c = &self.connections.entries[idx].1;
        let updated = WebSocketConnection {
            id: c.id.clone(),
            url: c.url.clone(),
            streams,
            status: copy_connection_status(&c.status),
            created_at: c.created_at,
            last_active: now,
        };
        self.connections.set_value_at(idx, updated);
        proof {
            assert forall|id: Seq<char>| id != connection_id@ && #[trigger] old(self).conns().contains_key(id)
                implies self.conns()[id] == old(self).conns()[id] by {}
            assert(self.conns().dom() =~= old(self).conns().dom());
        }
    }
}


/// The pairs of `pairs` in group `key`, in order.
pub open spec fn spec_in_group(
    s: ConnectionStrategy,
    max: nat,
    pairs: Seq<(String, DataType)>,
    key: Seq<char>,
) -> Seq<(Seq<char>, DataType)>
    decreases pairs.len(),
{
    if pairs.len() == 0 {
        Seq::empty()
    } else {
        let rest = spec_in_group(s, max, pairs.drop_last(), key);
        let p = pairs.last();
        if spec_group_key(s, p.0@, p.1, max) == key { rest.push((p.0@, p.1)) } else { rest }
    }
}

/// The views of a list of pairs.
pub open spec fn pair_views(pairs: Seq<(String, DataType)>) -> Seq<(Seq<char>, DataType)> {
    pairs.map_values(|p: (String, DataType)| (p.0@, p.1))
}

/// The group keys of `groups`.
pub open spec fn group_keys(groups: Seq<(String, Vec<(String, DataType)>)>) -> Seq<Seq<char>> {
    groups.map_values(|g: (String, Vec<(String, DataType)>)| g.0@)
}

impl SubscriptionManager {
    /// Groups pairs by the strategy: one group per key, in the order keys first appear,
    /// each holding its pairs in order.
    pub fn group_subscriptions_by_strategy(&self, subs: &Vec<(String, DataType)>) -> (r: Vec<(String, Vec<(String, DataType)>)>)
        requires
            self.connection_strategy == ConnectionStrategy::LoadBalanced ==> self.config.max_connections > 0,
        ensures
            group_keys(r@).no_duplicates(),
            forall|g: int| 0 <= g < r@.len() ==> pair_views((#[trigger] r@[g]).1@)
                == spec_in_group(self.connection_strategy, self.config.max_connections as nat, subs@, r@[g].0@),
            forall|i: int| 0 <= i < subs@.len() ==> group_keys(r@).contains(
                #[trigger] spec_group_key(self.connection_strategy, subs@[i].0@, subs@[i].1, self.config.max_connections as nat)),
    {
        let st = self.connection_strategy;
        let ghost max = self.config.max_connections as nat;
        let n = subs.len();
        let mut groups: Vec<(String, Vec<(String, DataType)>)> = Vec::new();
        let mut i: usize = 0;
        while i < n
            invariant
                self.connection_strategy == ConnectionStrategy::LoadBalanced ==> self.config.max_connections > 0,
                st == self.connection_strategy,
                max == self.config.max_connections as nat,
                n == subs@.len(),
                i <= n,
                group_keys(groups@).no_duplicates(),
                forall|g: int| 0 <= g < groups@.len() ==> pair_views((#[trigger] groups@[g]).1@)
                    == spec_in_group(st, max, subs@.take(i as int), groups@[g].0@),
                forall|k: Seq<char>| !group_keys(groups@).contains(k) ==> #[trigger] spec_in_group(st, max, subs@.take(i as int), k)
                    == Seq::<(Seq<char>, DataType)>::empty(),
                forall|j: int| 0 <= j < i ==> group_keys(groups@).contains(
                    #[trigger] spec_group_key(st, subs@[j].0@, subs@[j].1, max)),
            decreases n - i,
        {
            let key = self.group_key(subs[i].0.as_str(), subs[i].1);
            let ghost k = key@;
            let ghost t0 = subs@.take(i as int);
            let ghost t1 = subs@.take(i + 1);
            proof {
                assert(t1.drop_last() =~= t0);
                assert(t1.last() == subs@[i as int]);
            }
            let pair = (subs[i].0.clone(), subs[i].1);
            let found = find_group(&groups, key.as_str());
            let ghost before = groups@;
            match found {
                Some(h) => {
                    let mut entry = groups.remove(h);
                    let ghost old_entry = entry;
                    entry.1.push(pair);
                    groups.insert(h, entry);
                    proof {
                        assert(groups@ =~= before.update(h as int, entry));
                        assert(group_keys(groups@) =~= group_keys(before));
                        assert(pair_views(entry.1@) =~= pair_views(old_entry.1@).push((subs@[i as int].0@, subs@[i as int].1)));
                        assert forall|q: int| 0 <= q < groups@.len() implies pair_views((#[trigger] groups@[q]).1@)
                            == spec_in_group(st, max, t1, groups@[q].0@) by {
                            if q != h {
                                assert(group_keys(before)[q] != group_keys(before)[h as int]);
                            }
                        }
                        assert forall|j: int| 0 <= j < i + 1 implies group_keys(groups@).contains(
                            #[trigger] spec_group_key(st, subs@[j].0@, subs@[j].1, max)) by {
                            if j == i {
                                assert(group_keys(groups@)[h as int] == k);
                            }
                        }
                    }
                },
                None => {
                    proof {
                        assert(!group_keys(before).contains(k)) by {
                            if group_keys(before).contains(k) {
                                let q = choose|q: int| 0 <= q < group_keys(before).len() && group_keys(before)[q] == k;
                                assert(before[q].0@ == k);
                            }
                        }
                    }
                    let mut members: Vec<(String, DataType)> = Vec::new();
                    members.push(pair);
                    groups.push((key, members));
                    proof {
                        assert(group_keys(groups@) =~= group_keys(before).push(k));
                        assert(pair_views(members@) =~= seq![(subs@[i as int].0@, subs@[i as int].1)]);
                        assert(spec_in_group(st, max, t0, k) == Seq::<(Seq<char>, DataType)>::empty());
                        assert(spec_in_group(st, max, t1, k) =~= seq![(subs@[i as int].0@, subs@[i as int].1)]);
                        assert forall|a: int, b: int| 0 <= a < group_keys(groups@).len() && 0 <= b < group_keys(groups@).len() && a != b
                            implies group_keys(groups@)[a] != group_keys(groups@)[b] by {
                            if a < before.len() && b < before.len() {
                                assert(group_keys(before)[a] != group_keys(before)[b]);
                            } else if a < before.len() {
                                assert(group_keys(before)[a] != k) by {
                                    if group_keys(before)[a] == k {
                                        assert(group_keys(before).contains(k));
                                    }
                                }
                            } else if b < before.len() {
                                assert(group_keys(before)[b] != k) by {
                                    if group_keys(before)[b] == k {
                                        assert(group_keys(before).contains(k));
                                    }
                                }
                            }
                        }
                        assert forall|q: int| 0 <= q < groups@.len() implies pair_views((#[trigger] groups@[q]).1@)
                            == spec_in_group(st, max, t1, groups@[q].0@) by {
                            if q < before.len() {
                                assert(groups@[q] == before[q]);
                                assert(group_keys(before)[q] != k) by {
                                    if group_keys(before)[q] == k {
                                        assert(group_keys(before).contains(k));
                                    }
                                }
                            }
                        }
                        assert forall|j: int| 0 <= j < i + 1 implies group_keys(groups@).contains(
                            #[trigger] spec_group_key(st, subs@[j].0@, subs@[j].1, max)) by {
                            if j == i {
                                assert(group_keys(groups@)[before.len() as int] == k);
                            } else {
                                let kk = spec_group_key(st, subs@[j].0@, subs@[j].1, max);
                                let q = choose|q: int| 0 <= q < group_keys(before).len() && group_keys(before)[q] == kk;
                                assert(group_keys(groups@)[q] == kk);
                            }
                        }
                    }
                },
            }
            proof {
                assert forall|kk: Seq<char>| !group_keys(groups@).contains(kk) implies #[trigger] spec_in_group(st, max, t1, kk)
                    == Seq::<(Seq<char>, DataType)>::empty() by {
                    if kk == k {
                        assert(group_keys(groups@).contains(k));
                    } else {
                        if group_keys(before).contains(kk) {
                            let q = choose|q: int| 0 <= q < group_keys(before).len() && group_keys(before)[q] == kk;
                            assert(group_keys(groups@)[q] == kk);
                        }
                        assert(spec_in_group(st, max, t1, kk) == spec_in_group(st, max, t0, kk));
                        assert(spec_in_group(st, max, t0, kk) == Seq::<(Seq<char>, DataType)>::empty());
                    }
                }
            }
            i = i + 1;
        }
        proof {
            assert(subs@.take(n as int) =~= subs@);
        }
        groups
    }
}


/// Some connection of `conns` whose identifier starts with `key` carries `stream`.
pub open spec fn spec_carried(conns: Map<Seq<char>, WebSocketConnectionView>, key: Seq<char>, stream: Seq<char>) -> bool {
    exists|id: Seq<char>| #[trigger] conns.contains_key(id) && spec_starts_with(id, key) && conns[id].streams.contains(stream)
}

/// Whether `x` is the stream of one of `pairs`.
pub open spec fn spec_pair_stream(pairs: Seq<(String, DataType)>, x: Seq<char>) -> bool {
    exists|i: int| 0 <= i < pairs.len() && x == #[trigger] spec_stream_name(pairs[i].0@, pairs[i].1)
}

/// Whether `x` is the stream of a member of one of the first `g` groups.
pub open spec fn spec_group_stream(groups: Seq<(String, Vec<(String, DataType)>)>, g: int, x: Seq<char>) -> bool {
    exists|h: int, t: int| 0 <= h < g && 0 <= t < groups[h].1@.len()
        && x == #[trigger] spec_stream_name(groups[h].1@[t].0@, groups[h].1@[t].1)
}

/// Whether `x` is the stream of a symbol of `symbols` with a type of `types`.
pub open spec fn spec_requested_stream(symbols: Seq<String>, types: Seq<DataType>, x: Seq<char>) -> bool {
    exists|i: int, j: int| 0 <= i < symbols.len() && 0 <= j < types.len()
        && x == #[trigger] spec_stream_name(symbols[i]@, types[j])
}

/// A stream of a member of the first `g` groups is one of the first `g + 1`.
proof fn lemma_group_stream_more(groups: Seq<(String, Vec<(String, DataType)>)>, g: int, x: Seq<char>)
    requires
        spec_group_stream(groups, g, x),
    ensures
        spec_group_stream(groups, g + 1, x),
{
    let (h, t) = choose|h: int, t: int| 0 <= h < g && 0 <= t < groups[h].1@.len()
        && x == #[trigger] spec_stream_name(groups[h].1@[t].0@, groups[h].1@[t].1);
    assert(x == spec_stream_name(groups[h].1@[t].0@, groups[h].1@[t].1));
}

/// Every connection of `a` is still in `b` and carries at least the streams it carried.
pub open spec fn spec_conns_grow(a: Map<Seq<char>, WebSocketConnectionView>, b: Map<Seq<char>, WebSocketConnectionView>) -> bool {
    forall|id: Seq<char>| #[trigger] a.contains_key(id) ==> b.contains_key(id)
        && forall|x: Seq<char>| #[trigger] a[id].streams.contains(x) ==> b[id].streams.contains(x)
}

/// A carried stream stays carried as the connections grow.
proof fn lemma_carried_grows(
    a: Map<Seq<char>, WebSocketConnectionView>,
    b: Map<Seq<char>, WebSocketConnectionView>,
    key: Seq<char>,
    stream: Seq<char>,
)
    requires
        spec_carried(a, key, stream),
        spec_conns_grow(a, b),
    ensures
        spec_carried(b, key, stream),
{
    let id = choose|id: Seq<char>| #[trigger] a.contains_key(id) && spec_starts_with(id, key) && a[id].streams.contains(stream);
    assert(b.contains_key(id));
}

/// Growing twice is growing.
proof fn lemma_grow_trans(
    a: Map<Seq<char>, WebSocketConnectionView>,
    b: Map<Seq<char>, WebSocketConnectionView>,
    c: Map<Seq<char>, WebSocketConnectionView>,
)
    requires
        spec_conns_grow(a, b),
        spec_conns_grow(b, c),
    ensures
        spec_conns_grow(a, c),
{
    assert forall|id: Seq<char>| #[trigger] a.contains_key(id) implies c.contains_key(id)
        && forall|x: Seq<char>| #[trigger] a[id].streams.contains(x) ==> c[id].streams.contains(x) by {
        assert(b.contains_key(id));
        assert forall|x: Seq<char>| #[trigger] a[id].streams.contains(x) implies c[id].streams.contains(x) by {
            assert(b[id].streams.contains(x));
        }
    }
}

/// Every member of group `key` has that group key.
proof fn lemma_in_group_key(s: ConnectionStrategy, max: nat, pairs: Seq<(String, DataType)>, key: Seq<char>, j: int)
    requires
        0 <= j < spec_in_group(s, max, pairs, key).len(),
    ensures
        spec_group_key(s, spec_in_group(s, max, pairs, key)[j].0, spec_in_group(s, max, pairs, key)[j].1, max) == key,
    decreases pairs.len(),
{
    let rest = spec_in_group(s, max, pairs.drop_last(), key);
    if j < rest.len() {
        lemma_in_group_key(s, max, pairs.drop_last(), key, j);
        assert(spec_in_group(s, max, pairs, key)[j] == rest[j]);
    }
}

/// Whether `e` announces the subscription of `symbol` to `d` at `now`.
pub open spec fn spec_added_event(e: SubscriptionEvent, symbol: Seq<char>, d: DataType, now: u64) -> bool {
    e matches SubscriptionEvent::SubscriptionAdded { symbol: s, data_type, timestamp } && s@ == symbol && data_type == d && timestamp == now
}

/// Whether some event of `ev` announces the subscription of `symbol` to `d` at `now`.
pub open spec fn spec_announced(ev: Seq<SubscriptionEvent>, symbol: Seq<char>, d: DataType, now: u64) -> bool {
    exists|e: int| 0 <= e < ev.len() && #[trigger] spec_added_event(ev[e], symbol, d, now)
}

/// Whether `e` announces the subscription of one of the first `n` pairs of `members` at
/// `now`.
pub open spec fn spec_member_event(e: SubscriptionEvent, members: Seq<(String, DataType)>, n: int, now: u64) -> bool {
    exists|t: int| 0 <= t < n && #[trigger] spec_added_event(e, members[t].0@, members[t].1, now)
}

/// Whether `e` announces a connection opened at `now`: one in `after` that `before` did
/// not hold.
pub open spec fn spec_opened_event(
    e: SubscriptionEvent,
    before: Map<Seq<char>, WebSocketConnectionView>,
    after: Map<Seq<char>, WebSocketConnectionView>,
    now: u64,
) -> bool {
    e matches SubscriptionEvent::ConnectionEstablished { connection_id, timestamp } && timestamp == now
        && after.contains_key(connection_id@) && !before.contains_key(connection_id@)
}

/// Whether `e` announces the subscription of a member of `groups` at `now`.
pub open spec fn spec_group_event_added(e: SubscriptionEvent, groups: Seq<(String, Vec<(String, DataType)>)>, now: u64) -> bool {
    exists|h: int, t: int| 0 <= h < groups.len() && 0 <= t < groups[h].1@.len()
        && #[trigger] spec_added_event(e, groups[h].1@[t].0@, groups[h].1@[t].1, now)
}

/// Whether `e` announces a member of `groups` or a connection opened at `now`.
pub open spec fn spec_group_event(
    e: SubscriptionEvent,
    groups: Seq<(String, Vec<(String, DataType)>)>,
    before: Map<Seq<char>, WebSocketConnectionView>,
    after: Map<Seq<char>, WebSocketConnectionView>,
    now: u64,
) -> bool {
    spec_group_event_added(e, groups, now) || spec_opened_event(e, before, after, now)
}

/// Whether `e` announces the subscription of a pair of `subs` or a connection opened at
/// `now`.
pub open spec fn spec_new_event(
    e: SubscriptionEvent,
    subs: Seq<(String, DataType)>,
    before: Map<Seq<char>, WebSocketConnectionView>,
    after: Map<Seq<char>, WebSocketConnectionView>,
    now: u64,
) -> bool {
    (exists|i: int| 0 <= i < subs.len() && #[trigger] spec_added_event(e, subs[i].0@, subs[i].1, now))
        || spec_opened_event(e, before, after, now)
}

/// Whether `item` is a fresh active subscription made at `now` under key `k`.
pub open spec fn spec_fresh(item: SubscriptionItemView, k: Seq<char>, now: u64) -> bool {
    &&& item.status is Active
    &&& item.created_at == now
    &&& item.updated_at == now
    &&& item.retry_count == 0
    &&& spec_subscription_key(item.symbol, item.data_type) == k
}

/// The key of a pair.
pub open spec fn pair_key(p: (String, DataType)) -> Seq<char> {
    spec_subscription_key(p.0@, p.1)
}

/// A pair of `pairs` whose key is the group key is in the group.
proof fn lemma_in_group_has(s: ConnectionStrategy, max: nat, pairs: Seq<(String, DataType)>, i: int)
    requires
        0 <= i < pairs.len(),
    ensures
        spec_in_group(s, max, pairs, spec_group_key(s, pairs[i].0@, pairs[i].1, max)).contains((pairs[i].0@, pairs[i].1)),
    decreases pairs.len(),
{
    let k = spec_group_key(s, pairs[i].0@, pairs[i].1, max);
    let rest = spec_in_group(s, max, pairs.drop_last(), k);
    if i == pairs.len() - 1 {
        assert(spec_in_group(s, max, pairs, k) == rest.push((pairs[i].0@, pairs[i].1)));
        assert(rest.push((pairs[i].0@, pairs[i].1))[rest.len() as int] == (pairs[i].0@, pairs[i].1));
    } else {
        assert(pairs.drop_last()[i] == pairs[i]);
        lemma_in_group_has(s, max, pairs.drop_last(), i);
        let j = choose|j: int| 0 <= j < rest.len() && rest[j] == (pairs[i].0@, pairs[i].1);
        let full = spec_in_group(s, max, pairs, k);
        assert(full[j] == rest[j]);
    }
}

/// Every member of a group is the view of some pair.
proof fn lemma_in_group_from(s: ConnectionStrategy, max: nat, pairs: Seq<(String, DataType)>, k: Seq<char>, j: int)
    requires
        0 <= j < spec_in_group(s, max, pairs, k).len(),
    ensures
        exists|i: int| 0 <= i < pairs.len() && (pairs[i].0@, pairs[i].1) == #[trigger] spec_in_group(s, max, pairs, k)[j],
    decreases pairs.len(),
{
    let rest = spec_in_group(s, max, pairs.drop_last(), k);
    if j < rest.len() {
        lemma_in_group_from(s, max, pairs.drop_last(), k, j);
        let i = choose|i: int| 0 <= i < pairs.drop_last().len() && (pairs.drop_last()[i].0@, pairs.drop_last()[i].1) == #[trigger] spec_in_group(s, max, pairs.drop_last(), k)[j];
        assert(pairs[i] == pairs.drop_last()[i]);
        assert(spec_in_group(s, max, pairs, k)[j] == rest[j]);
    } else {
        let n = pairs.len() - 1;
        assert(spec_in_group(s, max, pairs, k)[j] == (pairs[n].0@, pairs[n].1));
    }
}

impl SubscriptionManager {
    /// Adds the given pairs as active subscriptions at `now`, group by group: each group
    /// gets a connection, which is opened if new, and carries the group's streams. The
    /// events to broadcast are returned.
    pub fn process_new_subscriptions_at(
        &mut self,
        subs: &Vec<(String, DataType)>,
        priority: SubscriptionPriority,
        now: u64,
    ) -> (r: Result<Vec<SubscriptionEvent>, SubscriptionManagerError>)
        requires
            old(self).wf(),
            old(self).connection_strategy == ConnectionStrategy::LoadBalanced ==> old(self).config.max_connections > 0,
        ensures
            final(self).wf(),
            final(self).config == old(self).config,
            final(self).connection_strategy == old(self).connection_strategy,
            r is Ok,
            forall|i: int| 0 <= i < subs@.len() ==> final(self).subs().contains_key(#[trigger] pair_key(subs@[i]))
                && spec_fresh(final(self).subs()[pair_key(subs@[i])], pair_key(subs@[i]), now),
            forall|k: Seq<char>| #[trigger] final(self).subs().contains_key(k) ==> old(self).subs().contains_key(k)
                || exists|i: int| 0 <= i < subs@.len() && #[trigger] pair_key(subs@[i]) == k,
            forall|k: Seq<char>| #[trigger] old(self).subs().contains_key(k) && (forall|i: int| 0 <= i < subs@.len() ==> #[trigger] pair_key(subs@[i]) != k)
                ==> final(self).subs().contains_key(k) && final(self).subs()[k] == old(self).subs()[k],
            spec_conns_grow(old(self).conns(), final(self).conns()),
            forall|id: Seq<char>, x: Seq<char>| final(self).conns().contains_key(id) && #[trigger] final(self).conns()[id].streams.contains(x)
                ==> (old(self).conns().contains_key(id) && old(self).conns()[id].streams.contains(x)) || spec_pair_stream(subs@, x),
            forall|i: int| 0 <= i < subs@.len() ==> #[trigger] spec_carried(
                final(self).conns(),
                spec_group_key(old(self).connection_strategy, subs@[i].0@, subs@[i].1, old(self).config.max_connections as nat),
                spec_stream_name(subs@[i].0@, subs@[i].1),
            ),
            r matches Ok(ev) ==> forall|i: int| 0 <= i < subs@.len() ==> #[trigger] spec_announced(ev@, subs@[i].0@, subs@[i].1, now),
            r matches Ok(ev) ==> forall|e: int| 0 <= e < ev@.len() ==> spec_new_event(#[trigger] ev@[e], subs@, old(self).conns(), final(self).conns(), now),
    {
        let groups = self.group_subscriptions_by_strategy(subs);
        let ghost st = self.connection_strategy;
        let ghost max = self.config.max_connections as nat;
        let ghost s0 = self.subs();
        let mut events: Vec<SubscriptionEvent> = Vec::new();
        let ng = groups.len();
        let mut g: usize = 0;
        while g < ng
            invariant
                self.wf(),
                self.config == old(self).config,
                self.connection_strategy == old(self).connection_strategy,
                st == self.connection_strategy,
                max == self.config.max_connections as nat,
                s0 == old(self).subs(),
                ng == groups@.len(),
                g <= ng,
                forall|h: int, j: int| 0 <= h < g && 0 <= j < groups@[h].1@.len() ==>
                    self.subs().contains_key(#[trigger] pair_key(groups@[h].1@[j]))
                    && spec_fresh(self.subs()[pair_key(groups@[h].1@[j])], pair_key(groups@[h].1@[j]), now),
                forall|k: Seq<char>| #[trigger] self.subs().contains_key(k) ==> s0.contains_key(k)
                    || exists|h: int, j: int| 0 <= h < g && 0 <= j < groups@[h].1@.len() && #[trigger] pair_key(groups@[h].1@[j]) == k,
                forall|k: Seq<char>| #[trigger] s0.contains_key(k) && (forall|h: int, j: int| 0 <= h < g && 0 <= j < groups@[h].1@.len()
                    ==> #[trigger] pair_key(groups@[h].1@[j]) != k) ==> self.subs().contains_key(k) && self.subs()[k] == s0[k],
                spec_conns_grow(old(self).conns(), self.conns()),
                forall|id: Seq<char>, x: Seq<char>| self.conns().contains_key(id) && #[trigger] self.conns()[id].streams.contains(x)
                    ==> (old(self).conns().contains_key(id) && old(self).conns()[id].streams.contains(x)) || spec_group_stream(groups@, g as int, x),
                forall|h: int, t: int| 0 <= h < g && 0 <= t < groups@[h].1@.len() ==> #[trigger] spec_carried(
                    self.conns(), groups@[h].0@, spec_stream_name(groups@[h].1@[t].0@, groups@[h].1@[t].1)),
                forall|h: int, t: int| 0 <= h < g && 0 <= t < groups@[h].1@.len() ==> #[trigger] spec_announced(
                    events@, groups@[h].1@[t].0@, groups@[h].1@[t].1, now),
                forall|e: int| 0 <= e < events@.len() ==> spec_group_event(#[trigger] events@[e], groups@, old(self).conns(), self.conns(), now),
            decreases ng - g,
        {
            let ghost start = self.subs();
            let ghost cg0 = self.conns();
            let ghost evs0 = events@;
            let (connection_id, created) = self.get_or_create_connection_at(groups[g].0.as_str(), now);
            let ghost cg1 = self.conns();
            proof {
                assert(spec_conns_grow(cg0, cg1)) by {
                    if created {
                        assert forall|id: Seq<char>| #[trigger] cg0.contains_key(id) implies cg1.contains_key(id)
                            && forall|x: Seq<char>| #[trigger] cg0[id].streams.contains(x) ==> cg1[id].streams.contains(x) by {
                            assert(id != connection_id@);
                        }
                    }
                }
                lemma_grow_trans(old(self).conns(), cg0, cg1);
                assert forall|e: int| 0 <= e < evs0.len() implies spec_group_event(#[trigger] evs0[e], groups@, old(self).conns(), cg1, now) by {
                    assert(spec_group_event(evs0[e], groups@, old(self).conns(), cg0, now));
                    if spec_opened_event(evs0[e], old(self).conns(), cg0, now) {
                        let cid = evs0[e]->ConnectionEstablished_connection_id;
                        assert(cg0.contains_key(cid@));
                    }
                }
            }
            if created {
                events.push(SubscriptionEvent::ConnectionEstablished { connection_id: connection_id.clone(), timestamp: now });
                proof {
                    assert forall|e: int| 0 <= e < events@.len() implies spec_group_event(#[trigger] events@[e], groups@, old(self).conns(), cg1, now) by {
                        if e < evs0.len() {
                            assert(events@[e] == evs0[e]);
                        } else {
                            assert(cg1.contains_key(connection_id@));
                            assert(!cg0.contains_key(connection_id@));
                        }
                    }
                }
            }
            let ghost evs1 = events@;
            proof {
                assert forall|h: int, t: int| 0 <= h < g && 0 <= t < groups@[h].1@.len() implies #[trigger] spec_announced(
                    evs1, groups@[h].1@[t].0@, groups@[h].1@[t].1, now) by {
                    assert(spec_announced(evs0, groups@[h].1@[t].0@, groups@[h].1@[t].1, now));
                    let e = choose|e: int| 0 <= e < evs0.len() && #[trigger] spec_added_event(evs0[e], groups@[h].1@[t].0@, groups@[h].1@[t].1, now);
                    assert(evs1[e] == evs0[e]);
                }
                assert forall|h: int, t: int| 0 <= h < g && 0 <= t < groups@[h].1@.len() implies #[trigger] spec_carried(
                    cg1, groups@[h].0@, spec_stream_name(groups@[h].1@[t].0@, groups@[h].1@[t].1)) by {
                    lemma_carried_grows(cg0, cg1, groups@[h].0@, spec_stream_name(groups@[h].1@[t].0@, groups@[h].1@[t].1));
                }
            }
            let members = &groups[g].1;
            let nm = members.len();
            let mut j: usize = 0;
            let ghost before = self.subs();
            let ghost cs = self.connections;
            assert(before == start);
            while j < nm
                invariant
                    self.connections == cs,
                    events@.len() >= evs1.len(),
                    forall|e: int| 0 <= e < evs1.len() ==> #[trigger] events@[e] == evs1[e],
                    forall|e: int| evs1.len() <= e < events@.len() ==> spec_member_event(#[trigger] events@[e], members@, j as int, now),
                    forall|t: int| 0 <= t < j ==> #[trigger] spec_announced(events@, members@[t].0@, members@[t].1, now),
                    self.wf(),
                    self.config == old(self).config,
                    self.connection_strategy == old(self).connection_strategy,
                    nm == members@.len(),
                    members@ == groups@[g as int].1@,
                    g < ng,
                    ng == groups@.len(),
                    j <= nm,
                    forall|t: int| 0 <= t < j ==> self.subs().contains_key(#[trigger] pair_key(members@[t]))
                        && spec_fresh(self.subs()[pair_key(members@[t])], pair_key(members@[t]), now),
                    forall|k: Seq<char>| #[trigger] self.subs().contains_key(k) ==> before.contains_key(k)
                        || exists|t: int| 0 <= t < j && #[trigger] pair_key(members@[t]) == k,
                    forall|k: Seq<char>| #[trigger] before.contains_key(k) && (forall|t: int| 0 <= t < j ==> #[trigger] pair_key(members@[t]) != k)
                        ==> self.subs().contains_key(k) && self.subs()[k] == before[k],
                decreases nm - j,
            {
                let key = self.subscription_key(members[j].0.as_str(), members[j].1);
                let item = SubscriptionItem {
                    symbol: members[j].0.clone(),
                    data_type: members[j].1,
                    status: SubscriptionStatus::Active,
                    created_at: now,
                    updated_at: now,
                    retry_count: 0,
                };
                let ghost kk = key@;
                let ghost b1 = self.subs();
                let ghost ev_j = events@;
                self.subscriptions.insert(key, item);
                events.push(SubscriptionEvent::SubscriptionAdded {
                    symbol: members[j].0.clone(),
                    data_type: members[j].1,
                    timestamp: now,
                });
                proof {
                    assert(spec_added_event(events@[ev_j.len() as int], members@[j as int].0@, members@[j as int].1, now));
                    assert forall|e: int| 0 <= e < evs1.len() implies #[trigger] events@[e] == evs1[e] by {
                        assert(events@[e] == ev_j[e]);
                    }
                    assert forall|e: int| evs1.len() <= e < events@.len() implies spec_member_event(#[trigger] events@[e], members@, j + 1, now) by {
                        if e < ev_j.len() {
                            assert(events@[e] == ev_j[e]);
                            assert(spec_member_event(ev_j[e], members@, j as int, now));
                            let t = choose|t: int| 0 <= t < j && #[trigger] spec_added_event(ev_j[e], members@[t].0@, members@[t].1, now);
                            assert(spec_added_event(events@[e], members@[t].0@, members@[t].1, now));
                        } else {
                            assert(spec_added_event(events@[e], members@[j as int].0@, members@[j as int].1, now));
                        }
                    }
                    assert forall|t: int| 0 <= t < j + 1 implies #[trigger] spec_announced(events@, members@[t].0@, members@[t].1, now) by {
                        if t < j {
                            assert(spec_announced(ev_j, members@[t].0@, members@[t].1, now));
                            let e = choose|e: int| 0 <= e < ev_j.len() && #[trigger] spec_added_event(ev_j[e], members@[t].0@, members@[t].1, now);
                            assert(events@[e] == ev_j[e]);
                        } else {
                            assert(spec_added_event(events@[ev_j.len() as int], members@[t].0@, members@[t].1, now));
                        }
                    }
                }
                proof {
                    assert(kk == pair_key(members@[j as int]));
                    assert forall|t: int| 0 <= t < j + 1 implies self.subs().contains_key(#[trigger] pair_key(members@[t]))
                        && spec_fresh(self.subs()[pair_key(members@[t])], pair_key(members@[t]), now) by {
                        if t < j && pair_key(members@[t]) != kk {
                            assert(b1.contains_key(pair_key(members@[t])));
                        }
                    }
                    assert forall|k: Seq<char>| #[trigger] self.subs().contains_key(k) implies before.contains_key(k)
                        || exists|t: int| 0 <= t < j + 1 && #[trigger] pair_key(members@[t]) == k by {
                        if k != kk {
                            assert(b1.contains_key(k));
                            if !before.contains_key(k) {
                                let t = choose|t: int| 0 <= t < j && #[trigger] pair_key(members@[t]) == k;
                                assert(0 <= t < j + 1);
                            }
                        } else {
                            assert(pair_key(members@[j as int]) == k);
                        }
                    }
                    assert forall|k: Seq<char>| #[trigger] before.contains_key(k) && (forall|t: int| 0 <= t < j + 1 ==> #[trigger] pair_key(members@[t]) != k)
                        implies self.subs().contains_key(k) && self.subs()[k] == before[k] by {
                        assert(pair_key(members@[j as int]) != k);
                        assert forall|t: int| 0 <= t < j implies #[trigger] pair_key(members@[t]) != k by {
                            assert(0 <= t < j + 1);
                        }
                    }
                }
                j = j + 1;
            }
            let ghost after_inner = self.subs();
            assert(self.conns() == cg1);
            let ghost evs2 = events@;
            self.update_connection_streams_at(connection_id.as_str(), members, now);
            assert(self.subs() == after_inner);
            let ghost cg2 = self.conns();
            proof {
                let gk = groups@[g as int].0@;
                assert(cg1.contains_key(connection_id@));
                assert(spec_starts_with(connection_id@, gk)) by {
                    if created {
                        reveal_strlit("_");
                        assert((gk + "_"@ + spec_decimal((now / 1000) as nat)).subrange(0, gk.len() as int) =~= gk);
                    }
                }
                assert(spec_conns_grow(cg1, cg2)) by {
                    assert forall|id: Seq<char>| #[trigger] cg1.contains_key(id) implies cg2.contains_key(id)
                        && forall|x: Seq<char>| #[trigger] cg1[id].streams.contains(x) ==> cg2[id].streams.contains(x) by {
                        assert(cg2.dom().contains(id));
                        if id == connection_id@ {
                            assert forall|x: Seq<char>| #[trigger] cg1[id].streams.contains(x) implies cg2[id].streams.contains(x) by {
                                let q = choose|q: int| 0 <= q < cg1[id].streams.len() && cg1[id].streams[q] == x;
                                assert(cg2[id].streams.contains(cg1[id].streams[q]));
                            }
                        }
                    }
                }
                lemma_grow_trans(old(self).conns(), cg1, cg2);
                assert forall|id: Seq<char>, x: Seq<char>| cg2.contains_key(id) && #[trigger] cg2[id].streams.contains(x)
                    implies (old(self).conns().contains_key(id) && old(self).conns()[id].streams.contains(x))
                        || spec_group_stream(groups@, g + 1, x) by {
                    assert(cg1.contains_key(id));
                    let from_before = cg1[id].streams.contains(x);
                    if id == connection_id@ && !from_before {
                        let j = choose|j: int| 0 <= j < members@.len() && x == #[trigger] spec_stream_name(members@[j].0@, members@[j].1);
                        assert(members@[j] == groups@[g as int].1@[j]);
                        assert(x == spec_stream_name(groups@[g as int].1@[j].0@, groups@[g as int].1@[j].1));
                    } else {
                        assert(cg1[id].streams.contains(x));
                        if created && id == connection_id@ {
                            assert(cg1[id].streams.len() == 0);
                        }
                        assert(cg0.contains_key(id) && cg1[id] == cg0[id]);
                        assert(cg0[id].streams.contains(x));
                        if !(old(self).conns().contains_key(id) && old(self).conns()[id].streams.contains(x)) {
                            lemma_group_stream_more(groups@, g as int, x);
                        }
                    }
                }
                assert forall|h: int, t: int| 0 <= h < g + 1 && 0 <= t < groups@[h].1@.len() implies #[trigger] spec_carried(
                    cg2, groups@[h].0@, spec_stream_name(groups@[h].1@[t].0@, groups@[h].1@[t].1)) by {
                    if h < g {
                        lemma_carried_grows(cg1, cg2, groups@[h].0@, spec_stream_name(groups@[h].1@[t].0@, groups@[h].1@[t].1));
                    } else {
                        assert(members@[t] == groups@[h].1@[t]);
                        assert(cg2[connection_id@].streams.contains(spec_stream_name(members@[t].0@, members@[t].1)));
                        assert(cg2.contains_key(connection_id@));
                    }
                }
                assert forall|h: int, t: int| 0 <= h < g + 1 && 0 <= t < groups@[h].1@.len() implies #[trigger] spec_announced(
                    evs2, groups@[h].1@[t].0@, groups@[h].1@[t].1, now) by {
                    if h < g {
                        assert(spec_announced(evs1, groups@[h].1@[t].0@, groups@[h].1@[t].1, now));
                        let e = choose|e: int| 0 <= e < evs1.len() && #[trigger] spec_added_event(evs1[e], groups@[h].1@[t].0@, groups@[h].1@[t].1, now);
                        assert(evs2[e] == evs1[e]);
                    } else {
                        assert(members@[t] == groups@[h].1@[t]);
                        assert(spec_announced(evs2, members@[t].0@, members@[t].1, now));
                    }
                }
                assert forall|e: int| 0 <= e < evs2.len() implies spec_group_event(#[trigger] evs2[e], groups@, old(self).conns(), cg2, now) by {
                    if e < evs1.len() {
                        assert(evs2[e] == evs1[e]);
                        assert(spec_group_event(evs1[e], groups@, old(self).conns(), cg1, now));
                        if spec_opened_event(evs1[e], old(self).conns(), cg1, now) {
                            let cid = evs1[e]->ConnectionEstablished_connection_id;
                            assert(cg1.contains_key(cid@));
                        }
                    } else {
                        assert(spec_member_event(evs2[e], members@, nm as int, now));
                        let t = choose|t: int| 0 <= t < nm && #[trigger] spec_added_event(evs2[e], members@[t].0@, members@[t].1, now);
                        assert(members@[t] == groups@[g as int].1@[t]);
                        assert(spec_added_event(evs2[e], groups@[g as int].1@[t].0@, groups@[g as int].1@[t].1, now));
                    }
                }
            }
            proof {
                assert forall|h: int, t: int| 0 <= h < g + 1 && 0 <= t < groups@[h].1@.len() implies
                    self.subs().contains_key(#[trigger] pair_key(groups@[h].1@[t]))
                    && spec_fresh(self.subs()[pair_key(groups@[h].1@[t])], pair_key(groups@[h].1@[t]), now) by {
                    if h < g {
                        let k = pair_key(groups@[h].1@[t]);
                        if !(exists|u: int| 0 <= u < nm && #[trigger] pair_key(members@[u]) == k) {
                            assert(before.contains_key(k));
                        } else {
                            let u = choose|u: int| 0 <= u < nm && #[trigger] pair_key(members@[u]) == k;
                            assert(pair_key(members@[u]) == k);
                        }
                    }
                }
                assert forall|k: Seq<char>| #[trigger] self.subs().contains_key(k) implies s0.contains_key(k)
                    || exists|h: int, t: int| 0 <= h < g + 1 && 0 <= t < groups@[h].1@.len() && #[trigger] pair_key(groups@[h].1@[t]) == k by {
                    assert(after_inner.contains_key(k));
                    if !before.contains_key(k) {
                        let t = choose|t: int| 0 <= t < nm && #[trigger] pair_key(members@[t]) == k;
                        assert(members@[t] == groups@[g as int].1@[t]);
                        assert(pair_key(groups@[g as int].1@[t]) == k);
                    } else if !s0.contains_key(k) {
                        assert(start.contains_key(k));
                        let (h, t) = choose|h: int, t: int| 0 <= h < g && 0 <= t < groups@[h].1@.len() && #[trigger] pair_key(groups@[h].1@[t]) == k;
                        assert(0 <= h < g + 1);
                    }
                }
                assert forall|k: Seq<char>| #[trigger] s0.contains_key(k) && (forall|h: int, t: int| 0 <= h < g + 1 && 0 <= t < groups@[h].1@.len()
                    ==> #[trigger] pair_key(groups@[h].1@[t]) != k) implies self.subs().contains_key(k) && self.subs()[k] == s0[k] by {
                    assert forall|h: int, t: int| 0 <= h < g && 0 <= t < groups@[h].1@.len() implies #[trigger] pair_key(groups@[h].1@[t]) != k by {
                        assert(0 <= h < g + 1);
                    }
                    assert forall|t: int| 0 <= t < nm implies #[trigger] pair_key(members@[t]) != k by {
                        assert(pair_key(groups@[g as int].1@[t]) != k);
                    }
                }
            }
            g = g + 1;
        }
        proof {
            assert forall|i: int| 0 <= i < subs@.len() implies self.subs().contains_key(#[trigger] pair_key(subs@[i]))
                && spec_fresh(self.subs()[pair_key(subs@[i])], pair_key(subs@[i]), now) by {
                let gk = spec_group_key(st, subs@[i].0@, subs@[i].1, max);
                assert(group_keys(groups@).contains(gk));
                let h = choose|h: int| 0 <= h < group_keys(groups@).len() && group_keys(groups@)[h] == gk;
                lemma_in_group_has(st, max, subs@, i);
                let members = spec_in_group(st, max, subs@, gk);
                assert(pair_views(groups@[h].1@) == members);
                let t = choose|t: int| 0 <= t < members.len() && members[t] == (subs@[i].0@, subs@[i].1);
                assert(pair_views(groups@[h].1@)[t] == (groups@[h].1@[t].0@, groups@[h].1@[t].1));
                assert(pair_key(groups@[h].1@[t]) == pair_key(subs@[i]));
            }
            assert forall|k: Seq<char>| #[trigger] self.subs().contains_key(k) implies old(self).subs().contains_key(k)
                || exists|i: int| 0 <= i < subs@.len() && #[trigger] pair_key(subs@[i]) == k by {
                if !s0.contains_key(k) {
                    let (h, t) = choose|h: int, t: int| 0 <= h < ng && 0 <= t < groups@[h].1@.len() && #[trigger] pair_key(groups@[h].1@[t]) == k;
                    let members = spec_in_group(st, max, subs@, groups@[h].0@);
                    assert(pair_views(groups@[h].1@) == members);
                    assert(pair_views(groups@[h].1@)[t] == (groups@[h].1@[t].0@, groups@[h].1@[t].1));
                    lemma_in_group_from(st, max, subs@, groups@[h].0@, t);
                    let i = choose|i: int| 0 <= i < subs@.len() && (subs@[i].0@, subs@[i].1) == #[trigger] spec_in_group(st, max, subs@, groups@[h].0@)[t];
                    assert(pair_key(subs@[i]) == k);
                }
            }
            assert forall|k: Seq<char>| #[trigger] old(self).subs().contains_key(k) && (forall|i: int| 0 <= i < subs@.len() ==> #[trigger] pair_key(subs@[i]) != k)
                implies self.subs().contains_key(k) && self.subs()[k] == old(self).subs()[k] by {
                assert forall|h: int, t: int| 0 <= h < ng && 0 <= t < groups@[h].1@.len() implies #[trigger] pair_key(groups@[h].1@[t]) != k by {
                    let members = spec_in_group(st, max, subs@, groups@[h].0@);
                    assert(pair_views(groups@[h].1@) == members);
                    assert(pair_views(groups@[h].1@)[t] == (groups@[h].1@[t].0@, groups@[h].1@[t].1));
                    lemma_in_group_from(st, max, subs@, groups@[h].0@, t);
                    let i = choose|i: int| 0 <= i < subs@.len() && (subs@[i].0@, subs@[i].1) == #[trigger] spec_in_group(st, max, subs@, groups@[h].0@)[t];
                    assert(pair_key(subs@[i]) != k);
                }
            }
        }
        proof {
            assert forall|id: Seq<char>, x: Seq<char>| self.conns().contains_key(id) && #[trigger] self.conns()[id].streams.contains(x)
                implies (old(self).conns().contains_key(id) && old(self).conns()[id].streams.contains(x)) || spec_pair_stream(subs@, x) by {
                if !(old(self).conns().contains_key(id) && old(self).conns()[id].streams.contains(x)) {
                    let (h, t) = choose|h: int, t: int| 0 <= h < ng && 0 <= t < groups@[h].1@.len()
                        && x == #[trigger] spec_stream_name(groups@[h].1@[t].0@, groups@[h].1@[t].1);
                    let members = spec_in_group(st, max, subs@, groups@[h].0@);
                    assert(pair_views(groups@[h].1@) == members);
                    assert(pair_views(groups@[h].1@)[t] == (groups@[h].1@[t].0@, groups@[h].1@[t].1));
                    lemma_in_group_from(st, max, subs@, groups@[h].0@, t);
                    let i = choose|i: int| 0 <= i < subs@.len() && (subs@[i].0@, subs@[i].1) == #[trigger] spec_in_group(st, max, subs@, groups@[h].0@)[t];
                    assert(x == spec_stream_name(subs@[i].0@, subs@[i].1));
                }
            }
            assert forall|i: int| 0 <= i < subs@.len() implies #[trigger] spec_carried(
                self.conns(), spec_group_key(st, subs@[i].0@, subs@[i].1, max), spec_stream_name(subs@[i].0@, subs@[i].1))
                && spec_announced(events@, subs@[i].0@, subs@[i].1, now) by {
                let gk = spec_group_key(st, subs@[i].0@, subs@[i].1, max);
                assert(group_keys(groups@).contains(gk));
                let h = choose|h: int| 0 <= h < group_keys(groups@).len() && group_keys(groups@)[h] == gk;
                lemma_in_group_has(st, max, subs@, i);
                let members = spec_in_group(st, max, subs@, gk);
                assert(pair_views(groups@[h].1@) == members);
                let t = choose|t: int| 0 <= t < members.len() && members[t] == (subs@[i].0@, subs@[i].1);
                assert(pair_views(groups@[h].1@)[t] == (groups@[h].1@[t].0@, groups@[h].1@[t].1));
                assert(spec_carried(self.conns(), groups@[h].0@, spec_stream_name(groups@[h].1@[t].0@, groups@[h].1@[t].1)));
                assert(spec_announced(events@, groups@[h].1@[t].0@, groups@[h].1@[t].1, now));
            }
            assert forall|i: int| 0 <= i < subs@.len() implies #[trigger] spec_announced(events@, subs@[i].0@, subs@[i].1, now) by {
                assert(spec_carried(self.conns(), spec_group_key(st, subs@[i].0@, subs@[i].1, max), spec_stream_name(subs@[i].0@, subs@[i].1)));
            }
            assert forall|e: int| 0 <= e < events@.len() implies spec_new_event(#[trigger] events@[e], subs@, old(self).conns(), self.conns(), now) by {
                assert(spec_group_event(events@[e], groups@, old(self).conns(), self.conns(), now));
                if spec_group_event_added(events@[e], groups@, now) {
                    let (h, t) = choose|h: int, t: int| 0 <= h < groups@.len() && 0 <= t < groups@[h].1@.len()
                        && #[trigger] spec_added_event(events@[e], groups@[h].1@[t].0@, groups@[h].1@[t].1, now);
                    let members = spec_in_group(st, max, subs@, groups@[h].0@);
                    assert(pair_views(groups@[h].1@) == members);
                    assert(pair_views(groups@[h].1@)[t] == (groups@[h].1@[t].0@, groups@[h].1@[t].1));
                    lemma_in_group_from(st, max, subs@, groups@[h].0@, t);
                    let i = choose|i: int| 0 <= i < subs@.len() && (subs@[i].0@, subs@[i].1) == #[trigger] spec_in_group(st, max, subs@, groups@[h].0@)[t];
                    assert(spec_added_event(events@[e], subs@[i].0@, subs@[i].1, now));
                }
            }
        }
        Ok(events)
    }
}


/// The streams of `s` that `drop` does not name, in order.
pub open spec fn spec_keep_streams(s: Seq<Seq<char>>, drop: spec_fn(Seq<char>) -> bool) -> Seq<Seq<char>>
    decreases s.len(),
{
    if s.len() == 0 {
        Seq::empty()
    } else {
        spec_keep_streams(s.drop_last(), drop) + if drop(s.last()) { Seq::empty() } else { seq![s.last()] }
    }
}

/// The streams kept are those of `s` that `drop` does not name; none is kept exactly when
/// `drop` names every stream of `s`.
pub proof fn lemma_keep_streams(s: Seq<Seq<char>>, drop: spec_fn(Seq<char>) -> bool)
    ensures
        forall|x: Seq<char>| #[trigger] spec_keep_streams(s, drop).contains(x) <==> s.contains(x) && !drop(x),
        spec_keep_streams(s, drop).len() == 0 <==> forall|x: Seq<char>| #[trigger] s.contains(x) ==> drop(x),
    decreases s.len(),
{
    if s.len() > 0 {
        let rest = s.drop_last();
        lemma_keep_streams(rest, drop);
        let tail: Seq<Seq<char>> = if drop(s.last()) { Seq::empty() } else { seq![s.last()] };
        assert(spec_keep_streams(s, drop) == spec_keep_streams(rest, drop) + tail);
        assert forall|x: Seq<char>| #[trigger] s.contains(x) <==> rest.contains(x) || x == s.last() by {
            if s.contains(x) {
                let i = choose|i: int| 0 <= i < s.len() && s[i] == x;
                if i < s.len() - 1 {
                    assert(rest[i] == x);
                }
            }
            if rest.contains(x) {
                let i = choose|i: int| 0 <= i < rest.len() && rest[i] == x;
                assert(s[i] == x);
            }
            if x == s.last() {
                assert(s[s.len() - 1] == x);
            }
        }
        assert forall|x: Seq<char>| #[trigger] spec_keep_streams(s, drop).contains(x)
            <==> spec_keep_streams(rest, drop).contains(x) || tail.contains(x) by {
            let k = spec_keep_streams(rest, drop);
            let all = k + tail;
            if all.contains(x) {
                let i = choose|i: int| 0 <= i < all.len() && all[i] == x;
                if i < k.len() {
                    assert(k[i] == x);
                } else {
                    assert(tail[i - k.len()] == x);
                }
            }
            if k.contains(x) {
                let i = choose|i: int| 0 <= i < k.len() && k[i] == x;
                assert(all[i] == x);
            }
            if tail.contains(x) {
                let i = choose|i: int| 0 <= i < tail.len() && tail[i] == x;
                assert(all[k.len() + i] == x);
            }
        }
        assert forall|x: Seq<char>| #[trigger] tail.contains(x) <==> x == s.last() && !drop(x) by {
            if !drop(s.last()) && x == s.last() {
                assert(tail[0] == x);
            }
        }
        assert forall|x: Seq<char>| #[trigger] spec_keep_streams(s, drop).contains(x) <==> s.contains(x) && !drop(x) by {
            assert(spec_keep_streams(s, drop).contains(x) <==> spec_keep_streams(rest, drop).contains(x) || tail.contains(x));
            assert(spec_keep_streams(rest, drop).contains(x) <==> rest.contains(x) && !drop(x));
            assert(s.contains(x) <==> rest.contains(x) || x == s.last());
        }
        if spec_keep_streams(s, drop).len() != 0 {
            let x = spec_keep_streams(s, drop)[0];
            assert(spec_keep_streams(s, drop).contains(x));
        }
        if !(forall|x: Seq<char>| #[trigger] s.contains(x) ==> drop(x)) {
            let x = choose|x: Seq<char>| s.contains(x) && !drop(x);
            assert(spec_keep_streams(s, drop).contains(x));
        }
    }
}

/// A connection without the streams that `drop` names.
pub open spec fn spec_stripped(c: WebSocketConnectionView, drop: spec_fn(Seq<char>) -> bool) -> WebSocketConnectionView {
    WebSocketConnectionView { streams: spec_keep_streams(c.streams, drop), ..c }
}

impl SubscriptionManager {
    /// Takes the streams named in `gone` off every connection; the connections stay.
    pub fn remove_streams(&mut self, gone: &Vec<String>)
        requires
            old(self).wf(),
        ensures
            final(self).wf(),
            final(self).config == old(self).config,
            final(self).connection_strategy == old(self).connection_strategy,
            final(self).subscriptions == old(self).subscriptions,
            final(self).conns().dom() == old(self).conns().dom(),
            forall|id: Seq<char>| #[trigger] old(self).conns().contains_key(id) ==> final(self).conns()[id]
                == spec_stripped(old(self).conns()[id], |x: Seq<char>| texts(gone@).contains(x)),
    {
        let ghost drop = |x: Seq<char>| texts(gone@).contains(x);
        let n = self.connections.entries.len();
        let mut i: usize = 0;
        while i < n
            invariant
                self.wf(),
                old(self).wf(),
                self.config == old(self).config,
                self.connection_strategy == old(self).connection_strategy,
                self.subscriptions == old(self).subscriptions,
                n == old(self).connections.entries@.len(),
                self.connections.entries@.len() == n,
                self.connections.key_seq() == old(self).connections.key_seq(),
                drop == (|x: Seq<char>| texts(gone@).contains(x)),
                i <= n,
                forall|j: int| i <= j < n ==> #[trigger] self.connections.entries@[j] == old(self).connections.entries@[j],
                self.conns().dom() == old(self).conns().dom(),
                forall|j: int| 0 <= j < i ==> self.conns()[#[trigger] old(self).connections.entries@[j].0@]
                    == spec_stripped(old(self).conns()[old(self).connections.entries@[j].0@], drop),
                forall|j: int| i <= j < n ==> self.conns()[#[trigger] old(self).connections.entries@[j].0@]
                    == old(self).conns()[old(self).connections.entries@[j].0@],
            decreases n - i,
        {
            proof {
                old(self).connections.lemma_entry(i as int);
                self.connections.lemma_entry(i as int);
            }
            let c = &self.connections.entries[i].1;
            let m = c.streams.len();
            let mut kept: Vec<String> = Vec::new();
            let mut k: usize = 0;
            while k < m
                invariant
                    m == c.streams@.len(),
                    k <= m,
                    drop == (|x: Seq<char>| texts(gone@).contains(x)),
                    texts(kept@) == spec_keep_streams(texts(c.streams@.take(k as int)), drop),
                decreases m - k,
            {
                let ghost k0 = kept@;
                proof {
                    assert(texts(c.streams@.take(k + 1)).drop_last() =~= texts(c.streams@.take(k as int)));
                    assert(texts(c.streams@.take(k + 1)).last() == c.streams@[k as int]@);
                }
                if !contains_text(gone, c.streams[k].as_str()) {
                    kept.push(c.streams[k].clone());
                    assert(texts(kept@) =~= texts(k0).push(c.streams@[k as int]@));
                }
                assert(texts(kept@) =~= spec_keep_streams(texts(c.streams@.take(k + 1)), drop));
                k = k + 1;
            }
            assert(c.streams@.take(m as int) =~= c.streams@);
            let updated = WebSocketConnection {
                id: c.id.clone(),
                url: c.url.clone(),
                streams: kept,
                status: copy_connection_status(&c.status),
                created_at: c.created_at,
                last_active: c.last_active,
            };
            let ghost key_i = old(self).connections.entries@[i as int].0@;
            let ghost before = self.conns();
            self.connections.set_value_at(i, updated);
            proof {
                assert(self.connections.key_seq()[i as int] == key_i);
                assert forall|j: int| 0 <= j < n && j != i implies old(self).connections.entries@[j].0@ != key_i by {
                    old(self).connections.lemma_entry(j);
                }
                assert(self.conns().dom() =~= old(self).conns().dom());
            }
            i = i + 1;
        }
        proof {
            assert forall|id: Seq<char>| #[trigger] old(self).conns().contains_key(id) implies self.conns()[id]
                == spec_stripped(old(self).conns()[id], |x: Seq<char>| texts(gone@).contains(x)) by {
                let j = old(self).connections.index_of(id);
                old(self).connections.lemma_entry(j);
            }
        }
    }
}

/// Whether `(symbol, d)` pairs one of `symbols` with one of `types`.
pub open spec fn spec_is_request_pair(symbols: Seq<String>, types: Seq<DataType>, symbol: Seq<char>, d: DataType) -> bool {
    exists|a: int, b: int| #![trigger symbols[a], types[b]] 0 <= a < symbols.len() && 0 <= b < types.len() && symbols[a]@ == symbol && types[b] == d
}

/// Whether `fresh` holds the pair `(symbol, d)`.
pub open spec fn spec_in_fresh(fresh: Seq<(String, DataType)>, symbol: Seq<char>, d: DataType) -> bool {
    exists|c: int| 0 <= c < fresh.len() && #[trigger] fresh[c].0@ == symbol && fresh[c].1 == d
}

/// Whether `e` announces, at `now`, a pair of the request that `subs` did not hold, or a
/// connection opened at `now`.
pub open spec fn spec_request_event(
    e: SubscriptionEvent,
    symbols: Seq<String>,
    types: Seq<DataType>,
    subs: Map<Seq<char>, SubscriptionItemView>,
    before: Map<Seq<char>, WebSocketConnectionView>,
    after: Map<Seq<char>, WebSocketConnectionView>,
    now: u64,
) -> bool {
    (exists|a: int, b: int| 0 <= a < symbols.len() && 0 <= b < types.len()
        && !subs.contains_key(spec_subscription_key(symbols[a]@, types[b]))
        && #[trigger] spec_added_event(e, symbols[a]@, types[b], now))
        || spec_opened_event(e, before, after, now)
}

/// Whether `x` is the stream of a pair of the request that `subs` holds.
pub open spec fn spec_dropped_stream(
    subs: Map<Seq<char>, SubscriptionItemView>,
    symbols: Seq<String>,
    types: Seq<DataType>,
    x: Seq<char>,
) -> bool {
    exists|a: int, b: int| 0 <= a < symbols.len() && 0 <= b < types.len()
        && subs.contains_key(spec_subscription_key(symbols[a]@, types[b]))
        && x == #[trigger] spec_stream_name(symbols[a]@, types[b])
}

/// The stream of a subscription.
pub fn stream_name_of(symbol: &str, d: DataType) -> (r: String)
    ensures
        r@ == spec_stream_name(symbol@, d),
{
    let lowered = to_lower(symbol);
    let joined = lowered.concat("@").concat(data_type_text(d));
    to_lower(joined.as_str())
}

/// Whether `k` is the key of some pair of the request.
pub open spec fn spec_requested(symbols: Seq<String>, types: Seq<DataType>, k: Seq<char>) -> bool {
    exists|i: int, j: int| 0 <= i < symbols.len() && 0 <= j < types.len() && #[trigger] spec_subscription_key(symbols[i]@, types[j]) == k
}

/// How many of `items` satisfy `f`.
pub open spec fn count_where<A>(items: Seq<A>, f: spec_fn(A) -> bool) -> nat
    decreases items.len(),
{
    if items.len() == 0 {
        0
    } else {
        count_where(items.drop_last(), f) + if f(items.last()) { 1nat } else { 0nat }
    }
}

impl SubscriptionManager {
    /// Subscribes every symbol of the request to every data type of it at `now`. Pairs
    /// already subscribed are left as they are, so repeating a request changes nothing.
    pub fn subscribe_at(&mut self, config: &SubscriptionConfig, now: u64) -> (r: Result<Vec<SubscriptionEvent>, SubscriptionManagerError>)
        requires
            old(self).wf(),
            old(self).connection_strategy == ConnectionStrategy::LoadBalanced ==> old(self).config.max_connections > 0,
        ensures
            final(self).wf(),
            final(self).config == old(self).config,
            final(self).connection_strategy == old(self).connection_strategy,
            r is Ok,
            forall|i: int, j: int| 0 <= i < config.symbols@.len() && 0 <= j < config.data_types@.len() ==> {
                let k = #[trigger] spec_subscription_key(config.symbols@[i]@, config.data_types@[j]);
                &&& final(self).subs().contains_key(k)
                &&& !old(self).subs().contains_key(k) ==> spec_fresh(final(self).subs()[k], k, now)
            },
            forall|k: Seq<char>| #[trigger] old(self).subs().contains_key(k)
                ==> final(self).subs().contains_key(k) && final(self).subs()[k] == old(self).subs()[k],
            forall|k: Seq<char>| #[trigger] final(self).subs().contains_key(k)
                ==> old(self).subs().contains_key(k) || spec_requested(config.symbols@, config.data_types@, k),
            (forall|k: Seq<char>| spec_requested(config.symbols@, config.data_types@, k) ==> #[trigger] old(self).subs().contains_key(k))
                ==> (final(self).subs() == old(self).subs() && final(self).conns() == old(self).conns()
                    && (r matches Ok(ev) && ev@.len() == 0)),
            spec_conns_grow(old(self).conns(), final(self).conns()),
            forall|id: Seq<char>, x: Seq<char>| final(self).conns().contains_key(id) && #[trigger] final(self).conns()[id].streams.contains(x)
                ==> (old(self).conns().contains_key(id) && old(self).conns()[id].streams.contains(x))
                    || spec_requested_stream(config.symbols@, config.data_types@, x),
            forall|i: int, j: int| 0 <= i < config.symbols@.len() && 0 <= j < config.data_types@.len()
                && !old(self).subs().contains_key(spec_subscription_key(config.symbols@[i]@, config.data_types@[j]))
                ==> #[trigger] spec_carried(
                    final(self).conns(),
                    spec_group_key(old(self).connection_strategy, config.symbols@[i]@, config.data_types@[j], old(self).config.max_connections as nat),
                    spec_stream_name(config.symbols@[i]@, config.data_types@[j]),
                ),
            r matches Ok(ev) ==> forall|i: int, j: int| 0 <= i < config.symbols@.len() && 0 <= j < config.data_types@.len()
                && !old(self).subs().contains_key(spec_subscription_key(config.symbols@[i]@, config.data_types@[j]))
                ==> #[trigger] spec_announced(ev@, config.symbols@[i]@, config.data_types@[j], now),
            r matches Ok(ev) ==> forall|e: int| 0 <= e < ev@.len() ==> spec_request_event(
                #[trigger] ev@[e], config.symbols@, config.data_types@, old(self).subs(), old(self).conns(), final(self).conns(), now),
    {
        let ns = config.symbols.len();
        let nt = config.data_types.len();
        let mut fresh: Vec<(String, DataType)> = Vec::new();
        let mut i: usize = 0;
        while i < ns
            invariant
                self.wf(),
                ns == config.symbols@.len(),
                nt == config.data_types@.len(),
                i <= ns,
                forall|a: int| 0 <= a < fresh@.len() ==> !self.subs().contains_key(#[trigger] pair_key(fresh@[a]))
                    && spec_requested(config.symbols@, config.data_types@, pair_key(fresh@[a])),
                forall|a: int, b: int| 0 <= a < i && 0 <= b < nt ==> self.subs().contains_key(#[trigger] spec_subscription_key(config.symbols@[a]@, config.data_types@[b]))
                    || exists|c: int| 0 <= c < fresh@.len() && #[trigger] pair_key(fresh@[c]) == spec_subscription_key(config.symbols@[a]@, config.data_types@[b]),
                forall|c: int| 0 <= c < fresh@.len() ==> #[trigger] spec_is_request_pair(config.symbols@, config.data_types@, fresh@[c].0@, fresh@[c].1),
                forall|a: int, b: int| 0 <= a < i && 0 <= b < nt && !self.subs().contains_key(spec_subscription_key(config.symbols@[a]@, config.data_types@[b]))
                    ==> #[trigger] spec_in_fresh(fresh@, config.symbols@[a]@, config.data_types@[b]),
            decreases ns - i,
        {
            let mut j: usize = 0;
            while j < nt
                invariant
                    self.wf(),
                    ns == config.symbols@.len(),
                    nt == config.data_types@.len(),
                    i < ns,
                    j <= nt,
                    forall|a: int| 0 <= a < fresh@.len() ==> !self.subs().contains_key(#[trigger] pair_key(fresh@[a]))
                        && spec_requested(config.symbols@, config.data_types@, pair_key(fresh@[a])),
                    forall|a: int, b: int| (0 <= a < i && 0 <= b < nt || a == i && 0 <= b < j) ==> self.subs().contains_key(#[trigger] spec_subscription_key(config.symbols@[a]@, config.data_types@[b]))
                        || exists|c: int| 0 <= c < fresh@.len() && #[trigger] pair_key(fresh@[c]) == spec_subscription_key(config.symbols@[a]@, config.data_types@[b]),
                    forall|c: int| 0 <= c < fresh@.len() ==> #[trigger] spec_is_request_pair(config.symbols@, config.data_types@, fresh@[c].0@, fresh@[c].1),
                    forall|a: int, b: int| (0 <= a < i && 0 <= b < nt || a == i && 0 <= b < j) && !self.subs().contains_key(spec_subscription_key(config.symbols@[a]@, config.data_types@[b]))
                        ==> #[trigger] spec_in_fresh(fresh@, config.symbols@[a]@, config.data_types@[b]),
                decreases nt - j,
            {
                let key = self.subscription_key(config.symbols[i].as_str(), config.data_types[j]);
                if !self.subscriptions.contains(key.as_str()) {
                    let ghost f0 = fresh@;
                    fresh.push((config.symbols[i].clone(), config.data_types[j]));
                    proof {
                        assert(spec_is_request_pair(config.symbols@, config.data_types@, fresh@[f0.len() as int].0@, fresh@[f0.len() as int].1));
                        assert forall|c: int| 0 <= c < fresh@.len() implies #[trigger] spec_is_request_pair(config.symbols@, config.data_types@, fresh@[c].0@, fresh@[c].1) by {
                            if c < f0.len() {
                                assert(fresh@[c] == f0[c]);
                            }
                        }
                        assert forall|a: int, b: int| (0 <= a < i && 0 <= b < nt || a == i && 0 <= b < j + 1) && !self.subs().contains_key(spec_subscription_key(config.symbols@[a]@, config.data_types@[b]))
                            implies #[trigger] spec_in_fresh(fresh@, config.symbols@[a]@, config.data_types@[b]) by {
                            if a == i && b == j {
                                assert(fresh@[f0.len() as int].0@ == config.symbols@[a]@);
                            } else {
                                assert(spec_in_fresh(f0, config.symbols@[a]@, config.data_types@[b]));
                                let c = choose|c: int| 0 <= c < f0.len() && f0[c].0@ == config.symbols@[a]@ && f0[c].1 == config.data_types@[b];
                                assert(fresh@[c] == f0[c]);
                            }
                        }
                        assert(pair_key(fresh@[f0.len() as int]) == key@);
                        assert(spec_subscription_key(config.symbols@[i as int]@, config.data_types@[j as int]) == key@);
                        assert forall|a: int| 0 <= a < fresh@.len() implies !self.subs().contains_key(#[trigger] pair_key(fresh@[a]))
                            && spec_requested(config.symbols@, config.data_types@, pair_key(fresh@[a])) by {
                            if a < f0.len() {
                                assert(fresh@[a] == f0[a]);
                            }
                        }
                        assert forall|a: int, b: int| (0 <= a < i && 0 <= b < nt || a == i && 0 <= b < j + 1) implies self.subs().contains_key(#[trigger] spec_subscription_key(config.symbols@[a]@, config.data_types@[b]))
                            || exists|c: int| 0 <= c < fresh@.len() && #[trigger] pair_key(fresh@[c]) == spec_subscription_key(config.symbols@[a]@, config.data_types@[b]) by {
                            let k = spec_subscription_key(config.symbols@[a]@, config.data_types@[b]);
                            if a == i && b == j {
                                assert(pair_key(fresh@[f0.len() as int]) == k);
                            } else if !self.subs().contains_key(k) {
                                let c = choose|c: int| 0 <= c < f0.len() && #[trigger] pair_key(f0[c]) == k;
                                assert(fresh@[c] == f0[c]);
                            }
                        }
                    }
                }
                j = j + 1;
            }
            i = i + 1;
        }
        let ghost s0 = self.subs();
        assert(s0 == old(self).subs());
        if fresh.len() > 0 {
            match self.process_new_subscriptions_at(&fresh, config.priority, now) {
                Ok(events) => {
                    proof {
                        let st = self.connection_strategy;
                        let mx = self.config.max_connections as nat;
                        assert forall|i: int, j: int| 0 <= i < config.symbols@.len() && 0 <= j < config.data_types@.len()
                            && !s0.contains_key(spec_subscription_key(config.symbols@[i]@, config.data_types@[j]))
                            implies #[trigger] spec_carried(self.conns(), spec_group_key(st, config.symbols@[i]@, config.data_types@[j], mx),
                                spec_stream_name(config.symbols@[i]@, config.data_types@[j])) by {
                            assert(spec_in_fresh(fresh@, config.symbols@[i]@, config.data_types@[j]));
                            let c = choose|c: int| 0 <= c < fresh@.len() && #[trigger] fresh@[c].0@ == config.symbols@[i]@ && fresh@[c].1 == config.data_types@[j];
                            assert(spec_carried(self.conns(), spec_group_key(st, fresh@[c].0@, fresh@[c].1, mx), spec_stream_name(fresh@[c].0@, fresh@[c].1)));
                        }
                        assert forall|i: int, j: int| 0 <= i < config.symbols@.len() && 0 <= j < config.data_types@.len()
                            && !s0.contains_key(spec_subscription_key(config.symbols@[i]@, config.data_types@[j]))
                            implies #[trigger] spec_announced(events@, config.symbols@[i]@, config.data_types@[j], now) by {
                            assert(spec_in_fresh(fresh@, config.symbols@[i]@, config.data_types@[j]));
                            let c = choose|c: int| 0 <= c < fresh@.len() && #[trigger] fresh@[c].0@ == config.symbols@[i]@ && fresh@[c].1 == config.data_types@[j];
                            assert(spec_announced(events@, fresh@[c].0@, fresh@[c].1, now));
                        }
                        assert forall|e: int| 0 <= e < events@.len() implies spec_request_event(
                            #[trigger] events@[e], config.symbols@, config.data_types@, s0, old(self).conns(), self.conns(), now) by {
                            assert(spec_new_event(events@[e], fresh@, old(self).conns(), self.conns(), now));
                            if !spec_opened_event(events@[e], old(self).conns(), self.conns(), now) {
                                let c = choose|c: int| 0 <= c < fresh@.len() && #[trigger] spec_added_event(events@[e], fresh@[c].0@, fresh@[c].1, now);
                                assert(spec_is_request_pair(config.symbols@, config.data_types@, fresh@[c].0@, fresh@[c].1));
                                let (x, y) = choose|x: int, y: int| #![trigger config.symbols@[x], config.data_types@[y]] 0 <= x < config.symbols@.len()
                                    && 0 <= y < config.data_types@.len() && config.symbols@[x]@ == fresh@[c].0@ && config.data_types@[y] == fresh@[c].1;
                                assert(pair_key(fresh@[c]) == spec_subscription_key(config.symbols@[x]@, config.data_types@[y]));
                                assert(!s0.contains_key(pair_key(fresh@[c])));
                                assert(spec_added_event(events@[e], config.symbols@[x]@, config.data_types@[y], now));
                            }
                        }
                        assert forall|i: int, j: int| 0 <= i < config.symbols@.len() && 0 <= j < config.data_types@.len() implies {
                            let k = #[trigger] spec_subscription_key(config.symbols@[i]@, config.data_types@[j]);
                            &&& self.subs().contains_key(k)
                            &&& !s0.contains_key(k) ==> spec_fresh(self.subs()[k], k, now)
                        } by {
                            let k = spec_subscription_key(config.symbols@[i]@, config.data_types@[j]);
                            if s0.contains_key(k) {
                                if exists|c: int| 0 <= c < fresh@.len() && #[trigger] pair_key(fresh@[c]) == k {
                                    let c = choose|c: int| 0 <= c < fresh@.len() && #[trigger] pair_key(fresh@[c]) == k;
                                    assert(!s0.contains_key(pair_key(fresh@[c])));
                                }
                            } else {
                                let c = choose|c: int| 0 <= c < fresh@.len() && #[trigger] pair_key(fresh@[c]) == k;
                                assert(self.subs().contains_key(pair_key(fresh@[c])));
                            }
                        }
                        assert forall|k: Seq<char>| #[trigger] s0.contains_key(k) implies self.subs().contains_key(k) && self.subs()[k] == s0[k] by {
                            assert forall|c: int| 0 <= c < fresh@.len() implies #[trigger] pair_key(fresh@[c]) != k by {
                                assert(!s0.contains_key(pair_key(fresh@[c])));
                            }
                        }
                        assert forall|k: Seq<char>| #[trigger] self.subs().contains_key(k) implies s0.contains_key(k)
                            || spec_requested(config.symbols@, config.data_types@, k) by {
                            if !s0.contains_key(k) {
                                let c = choose|c: int| 0 <= c < fresh@.len() && #[trigger] pair_key(fresh@[c]) == k;
                                assert(spec_requested(config.symbols@, config.data_types@, pair_key(fresh@[c])));
                            }
                        }
                        assert forall|id: Seq<char>, x: Seq<char>| self.conns().contains_key(id) && #[trigger] self.conns()[id].streams.contains(x)
                            implies (old(self).conns().contains_key(id) && old(self).conns()[id].streams.contains(x))
                                || spec_requested_stream(config.symbols@, config.data_types@, x) by {
                            if !(old(self).conns().contains_key(id) && old(self).conns()[id].streams.contains(x)) {
                                let c = choose|c: int| 0 <= c < fresh@.len() && x == #[trigger] spec_stream_name(fresh@[c].0@, fresh@[c].1);
                                assert(spec_is_request_pair(config.symbols@, config.data_types@, fresh@[c].0@, fresh@[c].1));
                                let (a, b) = choose|a: int, b: int| #![trigger config.symbols@[a], config.data_types@[b]] 0 <= a < config.symbols@.len()
                                    && 0 <= b < config.data_types@.len() && config.symbols@[a]@ == fresh@[c].0@ && config.data_types@[b] == fresh@[c].1;
                                assert(x == spec_stream_name(config.symbols@[a]@, config.data_types@[b]));
                            }
                        }
                        if forall|k: Seq<char>| spec_requested(config.symbols@, config.data_types@, k) ==> #[trigger] s0.contains_key(k) {
                            assert(!s0.contains_key(pair_key(fresh@[0])));
                            assert(spec_requested(config.symbols@, config.data_types@, pair_key(fresh@[0])));
                            assert(false);
                        }
                    }
                    Ok(events)
                },
                Err(e) => Err(e),
            }
        } else {
            proof {
                assert forall|i: int, j: int| 0 <= i < config.symbols@.len() && 0 <= j < config.data_types@.len() implies
                    #[trigger] s0.contains_key(spec_subscription_key(config.symbols@[i]@, config.data_types@[j])) by {
                    let k = spec_subscription_key(config.symbols@[i]@, config.data_types@[j]);
                    assert(s0.contains_key(k) || exists|c: int| 0 <= c < fresh@.len() && #[trigger] pair_key(fresh@[c]) == k);
                }
            }
            Ok(Vec::new())
        }
    }

    /// Removes every pair of the request that is subscribed, takes the streams of the
    /// removed pairs off the connections, then closes the connections left without a
    /// stream. The events to broadcast are returned: one `SubscriptionRemoved` for each
    /// removed pair, then one `ConnectionLost` for each closed connection.
    pub fn unsubscribe_at(&mut self, config: &SubscriptionConfig, now: u64) -> (r: Vec<SubscriptionEvent>)
        requires
            old(self).wf(),
        ensures
            final(self).wf(),
            final(self).config == old(self).config,
            final(self).connection_strategy == old(self).connection_strategy,
            forall|k: Seq<char>| #[trigger] final(self).subs().contains_key(k)
                <==> old(self).subs().contains_key(k) && !spec_requested(config.symbols@, config.data_types@, k),
            forall|k: Seq<char>| #[trigger] final(self).subs().contains_key(k) ==> final(self).subs()[k] == old(self).subs()[k],
            forall|id: Seq<char>| #[trigger] final(self).conns().contains_key(id)
                <==> old(self).conns().contains_key(id) && spec_stripped(old(self).conns()[id],
                    |x: Seq<char>| spec_dropped_stream(old(self).subs(), config.symbols@, config.data_types@, x)).streams.len() > 0,
            forall|id: Seq<char>| #[trigger] final(self).conns().contains_key(id) ==> final(self).conns()[id] == spec_stripped(
                old(self).conns()[id], |x: Seq<char>| spec_dropped_stream(old(self).subs(), config.symbols@, config.data_types@, x)),
            forall|id: Seq<char>| #[trigger] final(self).conns().contains_key(id)
                <==> old(self).conns().contains_key(id) && exists|x: Seq<char>| #[trigger] old(self).conns()[id].streams.contains(x)
                    && !spec_dropped_stream(old(self).subs(), config.symbols@, config.data_types@, x),
            forall|e: int| 0 <= e < r@.len() ==> {
                ||| (#[trigger] r@[e] matches SubscriptionEvent::SubscriptionRemoved { symbol, data_type, timestamp }
                    && timestamp == now && old(self).subs().contains_key(spec_subscription_key(symbol@, data_type))
                    && spec_requested(config.symbols@, config.data_types@, spec_subscription_key(symbol@, data_type)))
                ||| (r@[e] matches SubscriptionEvent::ConnectionLost { connection_id, timestamp, .. }
                    && timestamp == now && old(self).conns().contains_key(connection_id@)
                    && !final(self).conns().contains_key(connection_id@))
            },
            forall|k: Seq<char>| #[trigger] old(self).subs().contains_key(k) && spec_requested(config.symbols@, config.data_types@, k)
                ==> exists|e: int| 0 <= e < r@.len() && (#[trigger] r@[e] matches SubscriptionEvent::SubscriptionRemoved { symbol, data_type, .. }
                && spec_subscription_key(symbol@, data_type) == k),
            forall|id: Seq<char>| #[trigger] old(self).conns().contains_key(id) && !final(self).conns().contains_key(id)
                ==> exists|e: int| 0 <= e < r@.len() && (#[trigger] r@[e] matches SubscriptionEvent::ConnectionLost { connection_id, .. }
                && connection_id@ == id),
    {
        let mut events: Vec<SubscriptionEvent> = Vec::new();
        let mut gone: Vec<String> = Vec::new();
        let ns = config.symbols.len();
        let nt = config.data_types.len();
        let ghost s0 = self.subs();
        let mut i: usize = 0;
        while i < ns
            invariant
                self.wf(),
                s0 == self.subs(),
                ns == config.symbols@.len(),
                nt == config.data_types@.len(),
                i <= ns,
                forall|x: Seq<char>| #[trigger] texts(gone@).contains(x) ==> spec_dropped_stream(s0, config.symbols@, config.data_types@, x),
                forall|a: int, b: int| 0 <= a < i && 0 <= b < nt && s0.contains_key(spec_subscription_key(config.symbols@[a]@, config.data_types@[b]))
                    ==> texts(gone@).contains(#[trigger] spec_stream_name(config.symbols@[a]@, config.data_types@[b])),
            decreases ns - i,
        {
            let mut j: usize = 0;
            while j < nt
                invariant
                    self.wf(),
                    s0 == self.subs(),
                    ns == config.symbols@.len(),
                    nt == config.data_types@.len(),
                    i < ns,
                    j <= nt,
                    forall|x: Seq<char>| #[trigger] texts(gone@).contains(x) ==> spec_dropped_stream(s0, config.symbols@, config.data_types@, x),
                    forall|a: int, b: int| (0 <= a < i && 0 <= b < nt || a == i && 0 <= b < j) && s0.contains_key(spec_subscription_key(config.symbols@[a]@, config.data_types@[b]))
                        ==> texts(gone@).contains(#[trigger] spec_stream_name(config.symbols@[a]@, config.data_types@[b])),
                decreases nt - j,
            {
                let key = self.subscription_key(config.symbols[i].as_str(), config.data_types[j]);
                let ghost g0 = gone@;
                let ghost xi = spec_stream_name(config.symbols@[i as int]@, config.data_types@[j as int]);
                if self.subscriptions.contains(key.as_str()) {
                    let name = stream_name_of(config.symbols[i].as_str(), config.data_types[j]);
                    gone.push(name);
                    proof {
                        assert(texts(gone@) =~= texts(g0).push(xi));
                        assert(texts(gone@)[g0.len() as int] == xi);
                        assert(spec_dropped_stream(s0, config.symbols@, config.data_types@, xi));
                        assert forall|x: Seq<char>| #[trigger] texts(gone@).contains(x) implies spec_dropped_stream(s0, config.symbols@, config.data_types@, x) by {
                            if x != xi {
                                let t = choose|t: int| 0 <= t < texts(gone@).len() && texts(gone@)[t] == x;
                                assert(texts(g0)[t] == x);
                                assert(texts(g0).contains(x));
                            }
                        }
                    }
                }
                proof {
                    assert forall|a: int, b: int| (0 <= a < i && 0 <= b < nt || a == i && 0 <= b < j + 1) && s0.contains_key(spec_subscription_key(config.symbols@[a]@, config.data_types@[b]))
                        implies texts(gone@).contains(#[trigger] spec_stream_name(config.symbols@[a]@, config.data_types@[b])) by {
                        if !(a == i && b == j) {
                            let x = spec_stream_name(config.symbols@[a]@, config.data_types@[b]);
                            let t = choose|t: int| 0 <= t < texts(g0).len() && texts(g0)[t] == x;
                            assert(texts(gone@)[t] == x);
                        }
                    }
                }
                j = j + 1;
            }
            proof {
                assert forall|a: int, b: int| 0 <= a < i + 1 && 0 <= b < nt && s0.contains_key(spec_subscription_key(config.symbols@[a]@, config.data_types@[b]))
                    implies texts(gone@).contains(#[trigger] spec_stream_name(config.symbols@[a]@, config.data_types@[b])) by {
                    assert(0 <= a < i && 0 <= b < nt || a == i && 0 <= b < nt);
                }
            }
            i = i + 1;
        }
        let ghost drop = |x: Seq<char>| spec_dropped_stream(s0, config.symbols@, config.data_types@, x);
        proof {
            assert forall|x: Seq<char>| #[trigger] texts(gone@).contains(x) == drop(x) by {
                if drop(x) {
                    let (a, b) = choose|a: int, b: int| 0 <= a < config.symbols@.len() && 0 <= b < config.data_types@.len()
                        && s0.contains_key(spec_subscription_key(config.symbols@[a]@, config.data_types@[b]))
                        && x == #[trigger] spec_stream_name(config.symbols@[a]@, config.data_types@[b]);
                }
            }
            assert((|x: Seq<char>| texts(gone@).contains(x)) =~= drop);
        }
        let mut i: usize = 0;
        while i < ns
            invariant
                self.wf(),
                self.config == old(self).config,
                self.connection_strategy == old(self).connection_strategy,
                self.connections == old(self).connections,
                s0 == old(self).subs(),
                forall|x: Seq<char>| #[trigger] texts(gone@).contains(x) == drop(x),
                drop == (|x: Seq<char>| spec_dropped_stream(s0, config.symbols@, config.data_types@, x)),
                ns == config.symbols@.len(),
                nt == config.data_types@.len(),
                i <= ns,
                forall|k: Seq<char>| #[trigger] self.subs().contains_key(k) <==> s0.contains_key(k)
                    && !(exists|a: int, b: int| 0 <= a < i && 0 <= b < nt && #[trigger] spec_subscription_key(config.symbols@[a]@, config.data_types@[b]) == k),
                forall|k: Seq<char>| #[trigger] self.subs().contains_key(k) ==> self.subs()[k] == s0[k],
                forall|e: int| 0 <= e < events@.len() ==> (#[trigger] events@[e] matches SubscriptionEvent::SubscriptionRemoved { symbol, data_type, timestamp }
                    && timestamp == now && s0.contains_key(spec_subscription_key(symbol@, data_type))
                    && spec_requested(config.symbols@, config.data_types@, spec_subscription_key(symbol@, data_type))),
                forall|k: Seq<char>| #[trigger] s0.contains_key(k) && !self.subs().contains_key(k)
                    ==> exists|e: int| 0 <= e < events@.len() && (#[trigger] events@[e] matches SubscriptionEvent::SubscriptionRemoved { symbol, data_type, .. }
                    && spec_subscription_key(symbol@, data_type) == k),
            decreases ns - i,
        {
            let mut j: usize = 0;
            while j < nt
                invariant
                    self.wf(),
                    self.config == old(self).config,
                    self.connection_strategy == old(self).connection_strategy,
                    self.connections == old(self).connections,
                    s0 == old(self).subs(),
                    forall|x: Seq<char>| #[trigger] texts(gone@).contains(x) == drop(x),
                drop == (|x: Seq<char>| spec_dropped_stream(s0, config.symbols@, config.data_types@, x)),
                    ns == config.symbols@.len(),
                    nt == config.data_types@.len(),
                    i < ns,
                    j <= nt,
                    forall|k: Seq<char>| #[trigger] self.subs().contains_key(k) <==> s0.contains_key(k)
                        && !(exists|a: int, b: int| (0 <= a < i && 0 <= b < nt || a == i && 0 <= b < j) && #[trigger] spec_subscription_key(config.symbols@[a]@, config.data_types@[b]) == k),
                    forall|k: Seq<char>| #[trigger] self.subs().contains_key(k) ==> self.subs()[k] == s0[k],
                    forall|e: int| 0 <= e < events@.len() ==> (#[trigger] events@[e] matches SubscriptionEvent::SubscriptionRemoved { symbol, data_type, timestamp }
                        && timestamp == now && s0.contains_key(spec_subscription_key(symbol@, data_type))
                        && spec_requested(config.symbols@, config.data_types@, spec_subscription_key(symbol@, data_type))),
                    forall|k: Seq<char>| #[trigger] s0.contains_key(k) && !self.subs().contains_key(k)
                        ==> exists|e: int| 0 <= e < events@.len() && (#[trigger] events@[e] matches SubscriptionEvent::SubscriptionRemoved { symbol, data_type, .. }
                        && spec_subscription_key(symbol@, data_type) == k),
                decreases nt - j,
            {
                let key = self.subscription_key(config.symbols[i].as_str(), config.data_types[j]);
                let ghost before = self.subs();
                let ghost ev0 = events@;
                let ghost ki = spec_subscription_key(config.symbols@[i as int]@, config.data_types@[j as int]);
                let removed = self.subscriptions.remove(key.as_str());
                if removed {
                    events.push(SubscriptionEvent::SubscriptionRemoved {
                        symbol: config.symbols[i].clone(),
                        data_type: config.data_types[j],
                        timestamp: now,
                    });
                }
                proof {
                    assert(key@ == ki);
                    assert(spec_requested(config.symbols@, config.data_types@, ki));
                    if removed {
                        assert(s0.contains_key(ki)) by {
                            assert(before.contains_key(ki));
                        }
                        assert forall|e: int| 0 <= e < events@.len() implies (#[trigger] events@[e] matches SubscriptionEvent::SubscriptionRemoved { symbol, data_type, timestamp }
                            && timestamp == now && s0.contains_key(spec_subscription_key(symbol@, data_type))
                            && spec_requested(config.symbols@, config.data_types@, spec_subscription_key(symbol@, data_type))) by {
                            if e < ev0.len() {
                                assert(events@[e] == ev0[e]);
                            }
                        }
                        assert forall|k: Seq<char>| #[trigger] s0.contains_key(k) && !self.subs().contains_key(k)
                            implies exists|e: int| 0 <= e < events@.len() && (#[trigger] events@[e] matches SubscriptionEvent::SubscriptionRemoved { symbol, data_type, .. }
                            && spec_subscription_key(symbol@, data_type) == k) by {
                            if k == ki {
                                assert(events@[ev0.len() as int] matches SubscriptionEvent::SubscriptionRemoved { symbol, data_type, .. }
                                    && spec_subscription_key(symbol@, data_type) == k);
                            } else {
                                assert(!before.contains_key(k));
                                let e = choose|e: int| 0 <= e < ev0.len() && (#[trigger] ev0[e] matches SubscriptionEvent::SubscriptionRemoved { symbol, data_type, .. }
                                    && spec_subscription_key(symbol@, data_type) == k);
                                assert(events@[e] == ev0[e]);
                            }
                        }
                    } else {
                        assert(!before.contains_key(ki));
                    }
                    assert forall|k: Seq<char>| #[trigger] self.subs().contains_key(k) <==> s0.contains_key(k)
                        && !(exists|a: int, b: int| (0 <= a < i && 0 <= b < nt || a == i && 0 <= b < j + 1) && #[trigger] spec_subscription_key(config.symbols@[a]@, config.data_types@[b]) == k) by {
                        if k == key@ {
                            assert(spec_subscription_key(config.symbols@[i as int]@, config.data_types@[j as int]) == k);
                        } else {
                            if exists|a: int, b: int| (0 <= a < i && 0 <= b < nt || a == i && 0 <= b < j + 1) && #[trigger] spec_subscription_key(config.symbols@[a]@, config.data_types@[b]) == k {
                                let (a, b) = choose|a: int, b: int| (0 <= a < i && 0 <= b < nt || a == i && 0 <= b < j + 1) && #[trigger] spec_subscription_key(config.symbols@[a]@, config.data_types@[b]) == k;
                                if a == i && b == j {
                                    assert(k == key@);
                                }
                            }
                        }
                    }
                }
                j = j + 1;
            }
            proof {
                assert forall|k: Seq<char>| #[trigger] self.subs().contains_key(k) <==> s0.contains_key(k)
                    && !(exists|a: int, b: int| 0 <= a < i + 1 && 0 <= b < nt && #[trigger] spec_subscription_key(config.symbols@[a]@, config.data_types@[b]) == k) by {
                    if exists|a: int, b: int| 0 <= a < i + 1 && 0 <= b < nt && #[trigger] spec_subscription_key(config.symbols@[a]@, config.data_types@[b]) == k {
                        let (a, b) = choose|a: int, b: int| 0 <= a < i + 1 && 0 <= b < nt && #[trigger] spec_subscription_key(config.symbols@[a]@, config.data_types@[b]) == k;
                        assert((0 <= a < i && 0 <= b < nt || a == i && 0 <= b < nt));
                    }
                }
            }
            i = i + 1;
        }
        let ghost s_end = self.subs();
        proof {
            assert((|x: Seq<char>| texts(gone@).contains(x)) =~= drop);
            assert forall|k: Seq<char>| #[trigger] s_end.contains_key(k)
                <==> s0.contains_key(k) && !spec_requested(config.symbols@, config.data_types@, k) by {
                if spec_requested(config.symbols@, config.data_types@, k) {
                    let (a, b) = choose|a: int, b: int| 0 <= a < config.symbols@.len() && 0 <= b < config.data_types@.len()
                        && #[trigger] spec_subscription_key(config.symbols@[a]@, config.data_types@[b]) == k;
                }
            }
        }
        let ghost c0 = self.conns();
        self.remove_streams(&gone);
        let ghost c1 = self.conns();
        let ghost s1 = self.subs();
        let lost = self.cleanup_unused_connections_at(now);
        assert(self.subs() == s1);
        assert(s1 == s_end);
        let nl = lost.len();
        let mut all = events;
        let ghost ev = all@;
        let mut k: usize = 0;
        while k < nl
            invariant
                nl == lost@.len(),
                k <= nl,
                all@ == ev + lost@.take(k as int),
            decreases nl - k,
        {
            all.push(clone_event(&lost[k]));
            proof {
                assert(lost@.take(k + 1) =~= lost@.take(k as int).push(lost@[k as int]));
                assert(all@ =~= ev + lost@.take(k + 1));
            }
            k = k + 1;
        }
        proof {
            assert(lost@.take(nl as int) =~= lost@);
            assert(c0 == old(self).conns());
            assert forall|e: int| 0 <= e < all@.len() implies {
                ||| (#[trigger] all@[e] matches SubscriptionEvent::SubscriptionRemoved { symbol, data_type, timestamp }
                    && timestamp == now && old(self).subs().contains_key(spec_subscription_key(symbol@, data_type))
                    && spec_requested(config.symbols@, config.data_types@, spec_subscription_key(symbol@, data_type)))
                ||| (all@[e] matches SubscriptionEvent::ConnectionLost { connection_id, timestamp, .. }
                    && timestamp == now && old(self).conns().contains_key(connection_id@)
                    && !self.conns().contains_key(connection_id@))
            } by {
                if e < ev.len() {
                    assert(all@[e] == ev[e]);
                } else {
                    assert(all@[e] == lost@[e - ev.len()]);
                    assert(lost@[e - ev.len()] matches SubscriptionEvent::ConnectionLost { connection_id, reason, timestamp }
                        && timestamp == now && c1.contains_key(connection_id@) && c1[connection_id@].streams.len() == 0);
                }
            }
            assert forall|kk: Seq<char>| #[trigger] old(self).subs().contains_key(kk) && spec_requested(config.symbols@, config.data_types@, kk)
                implies exists|e: int| 0 <= e < all@.len() && (#[trigger] all@[e] matches SubscriptionEvent::SubscriptionRemoved { symbol, data_type, .. }
                && spec_subscription_key(symbol@, data_type) == kk) by {
                let (a, b) = choose|a: int, b: int| 0 <= a < config.symbols@.len() && 0 <= b < config.data_types@.len() && #[trigger] spec_subscription_key(config.symbols@[a]@, config.data_types@[b]) == kk;
                assert(!s1.contains_key(kk));
                let e = choose|e: int| 0 <= e < ev.len() && (#[trigger] ev[e] matches SubscriptionEvent::SubscriptionRemoved { symbol, data_type, .. }
                    && spec_subscription_key(symbol@, data_type) == kk);
                assert(all@[e] == ev[e]);
            }
            assert forall|id: Seq<char>| #[trigger] old(self).conns().contains_key(id) && !self.conns().contains_key(id)
                implies exists|e: int| 0 <= e < all@.len() && (#[trigger] all@[e] matches SubscriptionEvent::ConnectionLost { connection_id, .. }
                && connection_id@ == id) by {
                assert(c1.contains_key(id));
                assert(c1[id].streams.len() == 0);
                let e = choose|e: int| 0 <= e < lost@.len() && (#[trigger] lost@[e] matches SubscriptionEvent::ConnectionLost { connection_id, .. }
                    && connection_id@ == id);
                assert(all@[ev.len() + e] == lost@[e]);
            }
            assert forall|id: Seq<char>| #[trigger] self.conns().contains_key(id)
                <==> old(self).conns().contains_key(id) && exists|x: Seq<char>| #[trigger] old(self).conns()[id].streams.contains(x)
                    && !spec_dropped_stream(old(self).subs(), config.symbols@, config.data_types@, x) by {
                if old(self).conns().contains_key(id) {
                    lemma_keep_streams(old(self).conns()[id].streams,
                        |x: Seq<char>| spec_dropped_stream(old(self).subs(), config.symbols@, config.data_types@, x));
                }
            }
        }
        all
    }

    /// Closes every connection that carries no stream, returning a `ConnectionLost` event
    /// for each.
    pub fn cleanup_unused_connections_at(&mut self, now: u64) -> (r: Vec<SubscriptionEvent>)
        requires
            old(self).wf(),
        ensures
            final(self).wf(),
            final(self).config == old(self).config,
            final(self).connection_strategy == old(self).connection_strategy,
            final(self).subscriptions == old(self).subscriptions,
            forall|id: Seq<char>| #[trigger] final(self).conns().contains_key(id)
                <==> old(self).conns().contains_key(id) && old(self).conns()[id].streams.len() > 0,
            forall|id: Seq<char>| #[trigger] final(self).conns().contains_key(id) ==> final(self).conns()[id] == old(self).conns()[id],
            forall|e: int| 0 <= e < r@.len() ==> (#[trigger] r@[e] matches SubscriptionEvent::ConnectionLost { connection_id, reason, timestamp }
                && timestamp == now && reason@ == "未使用"@ && old(self).conns().contains_key(connection_id@)
                && old(self).conns()[connection_id@].streams.len() == 0),
            forall|id: Seq<char>| #[trigger] old(self).conns().contains_key(id) && old(self).conns()[id].streams.len() == 0
                ==> exists|e: int| 0 <= e < r@.len() && (#[trigger] r@[e] matches SubscriptionEvent::ConnectionLost { connection_id, .. }
                && connection_id@ == id),
    {
        proof {
            reveal_strlit("未使用");
        }
        let n = self.connections.entries.len();
        let mut doomed: Vec<String> = Vec::new();
        let mut i: usize = 0;
        while i < n
            invariant
                *self == *old(self),
                self.connections.wf(),
                n == self.connections.entries@.len(),
                i <= n,
                forall|a: int| 0 <= a < doomed@.len() ==> self.conns().contains_key(#[trigger] doomed@[a]@)
                    && self.conns()[doomed@[a]@].streams.len() == 0,
                forall|b: int| 0 <= b < i && #[trigger] self.connections.entries@[b].1.streams@.len() == 0
                    ==> texts(doomed@).contains(self.connections.entries@[b].0@),
            decreases n - i,
        {
            if self.connections.entries[i].1.streams.len() == 0 {
                let ghost d0 = doomed@;
                doomed.push(self.connections.entries[i].0.clone());
                proof {
                    self.connections.lemma_entry(i as int);
                    assert(texts(doomed@) =~= texts(d0).push(self.connections.entries@[i as int].0@));
                    assert(texts(doomed@)[d0.len() as int] == self.connections.entries@[i as int].0@);
                    assert forall|b: int| 0 <= b < i + 1 && #[trigger] self.connections.entries@[b].1.streams@.len() == 0
                        implies texts(doomed@).contains(self.connections.entries@[b].0@) by {
                        if b < i {
                            let t = choose|t: int| 0 <= t < texts(d0).len() && texts(d0)[t] == self.connections.entries@[b].0@;
                            assert(texts(doomed@)[t] == texts(d0)[t]);
                        }
                    }
                }
            }
            i = i + 1;
        }
        let ghost c0 = self.conns();
        let mut events: Vec<SubscriptionEvent> = Vec::new();
        let nd = doomed.len();
        let mut d: usize = 0;
        while d < nd
            invariant
                self.connections.wf(),
                self.subscriptions == old(self).subscriptions,
                self.subscriptions.wf(),
                self.config == old(self).config,
                self.connection_strategy == old(self).connection_strategy,
                nd == doomed@.len(),
                d <= nd,
                c0 == old(self).conns(),
                forall|a: int| 0 <= a < doomed@.len() ==> c0.contains_key(#[trigger] doomed@[a]@)
                    && c0[doomed@[a]@].streams.len() == 0,
                self.conns() == c0.remove_keys(texts(doomed@.take(d as int)).to_set()),
                events@.len() == d,
                forall|e: int| 0 <= e < d ==> (#[trigger] events@[e] matches SubscriptionEvent::ConnectionLost { connection_id, reason, timestamp }
                    && timestamp == now && reason@ == "未使用"@ && connection_id@ == doomed@[e]@),
            decreases nd - d,
        {
            self.connections.remove(doomed[d].as_str());
            let ghost e0 = events@;
            events.push(SubscriptionEvent::ConnectionLost {
                connection_id: doomed[d].clone(),
                reason: owned("未使用"),
                timestamp: now,
            });
            proof {
                assert forall|e: int| 0 <= e < d + 1 implies (#[trigger] events@[e] matches SubscriptionEvent::ConnectionLost { connection_id, reason, timestamp }
                    && timestamp == now && reason@ == "未使用"@ && connection_id@ == doomed@[e]@) by {
                    if e < d {
                        assert(events@[e] == e0[e]);
                    }
                }
                assert(doomed@.take(d + 1) =~= doomed@.take(d as int).push(doomed@[d as int]));
                assert(texts(doomed@.take(d + 1)) =~= texts(doomed@.take(d as int)).push(doomed@[d as int]@));
                texts(doomed@.take(d as int)).lemma_push_to_set_commute(doomed@[d as int]@);
                assert(self.conns() =~= c0.remove_keys(texts(doomed@.take(d + 1)).to_set()));
            }
            d = d + 1;
        }
        proof {
            assert(doomed@.take(nd as int) =~= doomed@);
            assert forall|id: Seq<char>| #[trigger] self.conns().contains_key(id)
                <==> c0.contains_key(id) && c0[id].streams.len() > 0 by {
                if c0.contains_key(id) && c0[id].streams.len() == 0 {
                    let b = old(self).connections.index_of(id);
                    old(self).connections.lemma_entry(b);
                    assert(old(self).connections.entries@[b].1.streams@.len() == 0);
                    assert(texts(doomed@).contains(id));
                }
                if texts(doomed@).to_set().contains(id) {
                    let t = choose|t: int| 0 <= t < texts(doomed@).len() && texts(doomed@)[t] == id;
                    assert(doomed@[t]@ == id);
                }
            }
            assert forall|id: Seq<char>| #[trigger] old(self).conns().contains_key(id) && old(self).conns()[id].streams.len() == 0
                implies exists|e: int| 0 <= e < events@.len() && (#[trigger] events@[e] matches SubscriptionEvent::ConnectionLost { connection_id, .. }
                && connection_id@ == id) by {
                let b = old(self).connections.index_of(id);
                old(self).connections.lemma_entry(b);
                assert(old(self).connections.entries@[b].1.streams@.len() == 0);
                assert(texts(doomed@).contains(id));
                let t = choose|t: int| 0 <= t < texts(doomed@).len() && texts(doomed@)[t] == id;
                assert(doomed@[t]@ == id);
                assert(events@[t] matches SubscriptionEvent::ConnectionLost { connection_id, .. } && connection_id@ == id);
            }
        }
        events
    }

    /// Counts subscriptions and connections at `now`.
    pub fn health_check_at(&self, now: u64) -> (r: SubscriptionManagerHealth)
        requires
            self.wf(),
        ensures
            r.total_subscriptions == self.subscriptions.entries@.len(),
            r.active_subscriptions == count_where(self.subscriptions.entries@, |e: (String, SubscriptionItem)| e.1.status is Active),
            r.failed_subscriptions == count_where(self.subscriptions.entries@, |e: (String, SubscriptionItem)| e.1.status is Failed),
            r.total_connections == self.connections.entries@.len(),
            r.active_connections == count_where(self.connections.entries@, |e: (String, WebSocketConnection)| e.1.status is Connected),
            r.last_checked == now,
    {
        let ns = self.subscriptions.entries.len();
        let mut active: usize = 0;
        let mut failed: usize = 0;
        let mut i: usize = 0;
        while i < ns
            invariant
                ns == self.subscriptions.entries@.len(),
                i <= ns,
                active == count_where(self.subscriptions.entries@.take(i as int), |e: (String, SubscriptionItem)| e.1.status is Active),
                failed == count_where(self.subscriptions.entries@.take(i as int), |e: (String, SubscriptionItem)| e.1.status is Failed),
                active <= i,
                failed <= i,
            decreases ns - i,
        {
            proof {
                assert(self.subscriptions.entries@.take(i + 1).drop_last() =~= self.subscriptions.entries@.take(i as int));
            }
            match &self.subscriptions.entries[i].1.status {
                SubscriptionStatus::Active => {
                    active = active + 1;
                },
                SubscriptionStatus::Failed(_) => {
                    failed = failed + 1;
                },
                _ => {},
            }
            i = i + 1;
        }
        proof {
            assert(self.subscriptions.entries@.take(ns as int) =~= self.subscriptions.entries@);
        }
        let nc = self.connections.entries.len();
        let mut connected: usize = 0;
        let mut c: usize = 0;
        while c < nc
            invariant
                nc == self.connections.entries@.len(),
                c <= nc,
                connected == count_where(self.connections.entries@.take(c as int), |e: (String, WebSocketConnection)| e.1.status is Connected),
                connected <= c,
            decreases nc - c,
        {
            proof {
                assert(self.connections.entries@.take(c + 1).drop_last() =~= self.connections.entries@.take(c as int));
            }
            match &self.connections.entries[c].1.status {
                ConnectionStatus::Connected => {
                    connected = connected + 1;
                },
                _ => {},
            }
            c = c + 1;
        }
        proof {
            assert(self.connections.entries@.take(nc as int) =~= self.connections.entries@);
        }
        SubscriptionManagerHealth {
            total_subscriptions: ns,
            active_subscriptions: active,
            failed_subscriptions: failed,
            total_connections: nc,
            active_connections: connected,
            last_checked: now,
        }
    }

    /// A copy of the subscriptions, by key.
    pub fn get_subscriptions(&self) -> (r: StrMap<SubscriptionItem>)
        requires
            self.wf(),
        ensures
            r.wf(),
            r.view() == self.subs(),
            r.key_seq() == self.subscriptions.key_seq(),
    {
        let n = self.subscriptions.entries.len();
        let mut entries: Vec<(String, SubscriptionItem)> = Vec::new();
        let mut i: usize = 0;
        while i < n
            invariant
                n == self.subscriptions.entries@.len(),
                i <= n,
                entries@.len() == i,
                forall|j: int| 0 <= j < i ==> {
                    &&& (#[trigger] entries@[j]).0@ == self.subscriptions.entries@[j].0@
                    &&& entries@[j].1@ == self.subscriptions.entries@[j].1@
                },
            decreases n - i,
        {
            let e = &self.subscriptions.entries[i];
            entries.push((e.0.clone(), copy_subscription_item(&e.1)));
            i = i + 1;
        }
        let r = StrMap { entries };
        proof {
            crate::str_map::lemma_entrywise_equal(&self.subscriptions, &r);
        }
        r
    }

    /// A copy of the connections, by identifier.
    pub fn get_connections(&self) -> (r: StrMap<WebSocketConnection>)
        requires
            self.wf(),
        ensures
            r.wf(),
            r.view() == self.conns(),
            r.key_seq() == self.connections.key_seq(),
    {
        let n = self.connections.entries.len();
        let mut entries: Vec<(String, WebSocketConnection)> = Vec::new();
        let mut i: usize = 0;
        while i < n
            invariant
                n == self.connections.entries@.len(),
                i <= n,
                entries@.len() == i,
                forall|j: int| 0 <= j < i ==> {
                    &&& (#[trigger] entries@[j]).0@ == self.connections.entries@[j].0@
                    &&& entries@[j].1@ == self.connections.entries@[j].1@
                },
            decreases n - i,
        {
            let e = &self.connections.entries[i];
            entries.push((e.0.clone(), copy_connection(&e.1)));
            i = i + 1;
        }
        let r = StrMap { entries };
        proof {
            crate::str_map::lemma_entrywise_equal(&self.connections, &r);
        }
        r
    }
}

/// Copies an event.
pub fn clone_event(e: &SubscriptionEvent) -> (r: SubscriptionEvent)
    ensures
        r == *e,
{
    match e {
        SubscriptionEvent::SubscriptionAdded { symbol, data_type, timestamp } =>
            SubscriptionEvent::SubscriptionAdded { symbol: symbol.clone(), data_type: *data_type, timestamp: *timestamp },
        SubscriptionEvent::SubscriptionRemoved { symbol, data_type, timestamp } =>
            SubscriptionEvent::SubscriptionRemoved { symbol: symbol.clone(), data_type: *data_type, timestamp: *timestamp },
        SubscriptionEvent::SubscriptionFailed { symbol, data_type, error, timestamp } => SubscriptionEvent::SubscriptionFailed {
            symbol: symbol.clone(),
            data_type: *data_type,
            error: error.clone(),
            timestamp: *timestamp,
        },
        SubscriptionEvent::ConnectionEstablished { connection_id, timestamp } =>
            SubscriptionEvent::ConnectionEstablished { connection_id: connection_id.clone(), timestamp: *timestamp },
        SubscriptionEvent::ConnectionLost { connection_id, reason, timestamp } => SubscriptionEvent::ConnectionLost {
            connection_id: connection_id.clone(),
            reason: reason.clone(),
            timestamp: *timestamp,
        },
    }
}

/// The position of the group with key `key`, if any.
pub fn find_group(groups: &Vec<(String, Vec<(String, DataType)>)>, key: &str) -> (r: Option<usize>)
    ensures
        match r {
            Some(h) => h < groups@.len() && groups@[h as int].0@ == key@,
            None => forall|h: int| 0 <= h < groups@.len() ==> #[trigger] groups@[h].0@ != key@,
        },
{
    let m = groups.len();
    let mut g: usize = 0;
    while g < m
        invariant
            m == groups@.len(),
            g <= m,
            forall|h: int| 0 <= h < g ==> #[trigger] groups@[h].0@ != key@,
        decreases m - g,
    {
        if crate::text::str_equals(groups[g].0.as_str(), key) {
            return Some(g);
        }
        g = g + 1;
    }
    None
}

/// Whether some string of `v` equals `s`.
pub fn contains_text(v: &Vec<String>, s: &str) -> (r: bool)
    ensures
        r == texts(v@).contains(s@),
{
    let n = v.len();
    let mut i: usize = 0;
    while i < n
        invariant
            n == v@.len(),
            i <= n,
            forall|j: int| 0 <= j < i ==> v@[j]@ != s@,
        decreases n - i,
    {
        if crate::text::str_equals(v[i].as_str(), s) {
            assert(texts(v@)[i as int] == s@);
            return true;
        }
        i = i + 1;
    }
    proof {
        if texts(v@).contains(s@) {
            let j = choose|j: int| 0 <= j < texts(v@).len() && #[trigger] texts(v@)[j] == s@;
            assert(v@[j]@ == s@);
        }
    }
    false
}

/// Copies a subscription state.
pub fn copy_subscription_status(s: &SubscriptionStatus) -> (r: SubscriptionStatus)
    ensures
        subscription_status_view(r) == subscription_status_view(*s),
{
    match s {
        SubscriptionStatus::Pending => SubscriptionStatus::Pending,
        SubscriptionStatus::Active => SubscriptionStatus::Active,
        SubscriptionStatus::Paused => SubscriptionStatus::Paused,
        SubscriptionStatus::Failed(m) => SubscriptionStatus::Failed(m.clone()),
        SubscriptionStatus::Cancelled => SubscriptionStatus::Cancelled,
    }
}

/// Copies a subscription.
pub fn copy_subscription_item(s: &SubscriptionItem) -> (r: SubscriptionItem)
    ensures
        r@ == s@,
{
    SubscriptionItem {
        symbol: s.symbol.clone(),
        data_type: s.data_type,
        status: copy_subscription_status(&s.status),
        created_at: s.created_at,
        updated_at: s.updated_at,
        retry_count: s.retry_count,
    }
}

/// Copies a list of strings.
pub fn copy_texts(v: &Vec<String>) -> (r: Vec<String>)
    ensures
        texts(r@) == texts(v@),
{
    let mut out: Vec<String> = Vec::new();
    let mut i: usize = 0;
    while i < v.len()
        invariant
            i <= v@.len(),
            texts(out@) == texts(v@.take(i as int)),
        decreases v@.len() - i,
    {
        let ghost o0 = out@;
        out.push(v[i].clone());
        proof {
            assert(texts(out@) =~= texts(o0).push(v@[i as int]@));
            assert(texts(v@.take(i + 1)) =~= texts(v@.take(i as int)).push(v@[i as int]@));
        }
        i = i + 1;
    }
    proof {
        assert(v@.take(v@.len() as int) =~= v@);
    }
    out
}

/// Copies a connection.
pub fn copy_connection(c: &WebSocketConnection) -> (r: WebSocketConnection)
    ensures
        r@ == c@,
{
    WebSocketConnection {
        id: c.id.clone(),
        url: c.url.clone(),
        streams: copy_texts(&c.streams),
        status: copy_connection_status(&c.status),
        created_at: c.created_at,
        last_active: c.last_active,
    }
}

/// Copies a connection state.
pub fn copy_connection_status(s: &ConnectionStatus) -> (r: ConnectionStatus)
    ensures
        connection_status_view(r) == connection_status_view(*s),
{
    match s {
        ConnectionStatus::Connecting => ConnectionStatus::Connecting,
        ConnectionStatus::Connected => ConnectionStatus::Connected,
        ConnectionStatus::Disconnected => ConnectionStatus::Disconnected,
        ConnectionStatus::Failed(m) => ConnectionStatus::Failed(m.clone()),
    }
}

} // verus!
