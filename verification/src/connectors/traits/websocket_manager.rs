//! The WebSocket connection pool: which connections exist, which stream kinds each one
//! carries, their state and quality, and how the connection strategy is chosen. Opening
//! sockets, the message channels, the event broadcast and the monitoring timers belong to
//! the caller, which reports back through the methods here. Times are milliseconds.
use vstd::prelude::*;
use crate::str_map::StrMap;
use crate::text::owned;

verus! {

/// Errors of the connection pool.
#[derive(Debug, Clone)]
pub enum WebSocketManagerError {
    ConnectionFailed(String),
    ConnectionExists(String),
    ConnectionNotFound(String),
    PoolFull,
    MessageSendFailed(String),
    ConfigError(String),
}

/// The text of a pool error.
pub open spec fn spec_ws_error_text(e: WebSocketManagerError) -> Seq<char> {
    match e {
        WebSocketManagerError::ConnectionFailed(m) => "连接失败: "@ + m@,
        WebSocketManagerError::ConnectionExists(m) => "连接已存在: "@ + m@,
        WebSocketManagerError::ConnectionNotFound(m) => "连接不存在: "@ + m@,
        WebSocketManagerError::PoolFull => "连接池已满"@,
        WebSocketManagerError::MessageSendFailed(m) => "消息发送失败: "@ + m@,
        WebSocketManagerError::ConfigError(m) => "配置错误: "@ + m@,
    }
}

impl WebSocketManagerError {
    /// The text of the error.
    pub fn message(&self) -> (r: String)
        ensures
            r@ == spec_ws_error_text(*self),
    {
        match self {
            WebSocketManagerError::ConnectionFailed(m) => owned("连接失败: ").concat(m.as_str()),
            WebSocketManagerError::ConnectionExists(m) => owned("连接已存在: ").concat(m.as_str()),
            WebSocketManagerError::ConnectionNotFound(m) => owned("连接不存在: ").concat(m.as_str()),
            WebSocketManagerError::PoolFull => owned("连接池已满"),
            WebSocketManagerError::MessageSendFailed(m) => owned("消息发送失败: ").concat(m.as_str()),
            WebSocketManagerError::ConfigError(m) => owned("配置错误: ").concat(m.as_str()),
        }
    }
}

/// How streams are spread over connections.
#[derive(Debug, Clone, Copy, PartialEq, Eq, Structural)]
pub enum ConnectionStrategy {
    Multiplexed,
    Independent,
    Hybrid,
}

/// Kinds of data stream.
#[derive(Debug, Clone, Copy, PartialEq, Eq, Hash, Structural)]
pub enum StreamType {
    MarketData,
    UserData,
    OrderBook,
    Trade,
    Kline,
    Ticker,
}

/// The number of stream kinds.
pub const STREAM_TYPE_COUNT: usize = 6;

/// The position of a stream kind in per-kind tables.
pub open spec fn stream_index(s: StreamType) -> int {
    match s {
        StreamType::MarketData => 0,
        StreamType::UserData => 1,
        StreamType::OrderBook => 2,
        StreamType::Trade => 3,
        StreamType::Kline => 4,
        StreamType::Ticker => 5,
    }
}

/// The table position of a stream kind.
pub fn stream_slot(s: StreamType) -> (r: usize)
    ensures
        r == stream_index(s),
        r < STREAM_TYPE_COUNT,
{
    match s {
        StreamType::MarketData => 0,
        StreamType::UserData => 1,
        StreamType::OrderBook => 2,
        StreamType::Trade => 3,
        StreamType::Kline => 4,
        StreamType::Ticker => 5,
    }
}

/// Quality of a connection: latency in milliseconds, packet loss in millionths and
/// stability in thousandths.
#[derive(Debug, Clone, Copy, PartialEq, Eq, Structural)]
pub struct ConnectionQuality {
    pub latency_ms: u64,
    pub packet_loss_ppm: u32,
    pub stability_permille: u32,
    pub last_updated: u64,
    pub uptime_seconds: u64,
    pub reconnect_count: u32,
}

impl ConnectionQuality {
    /// The quality of a fresh connection at `now`: no latency or loss, full stability.
    pub fn default_at(now: u64) -> (r: Self)
        ensures
            r == (ConnectionQuality {
                latency_ms: 0,
                packet_loss_ppm: 0,
                stability_permille: 1000,
                last_updated: now,
                uptime_seconds: 0,
                reconnect_count: 0,
            }),
    {
        ConnectionQuality {
            latency_ms: 0,
            packet_loss_ppm: 0,
            stability_permille: 1000,
            last_updated: now,
            uptime_seconds: 0,
            reconnect_count: 0,
        }
    }
}

/// State of one pooled connection.
#[derive(Debug, Clone)]
pub enum ConnectionStatus {
    Disconnected,
    Connecting,
    Connected,
    Reconnecting { attempt: u32, next_retry: u64 },
    Failed { error: String, last_attempt: u64 },
}

/// A connection state with its error text as characters.
pub enum ConnectionStatusView {
    Disconnected,
    Connecting,
    Connected,
    Reconnecting { attempt: u32, next_retry: u64 },
    Failed { error: Seq<char>, last_attempt: u64 },
}

impl View for ConnectionStatus {
    type V = ConnectionStatusView;

    open spec fn view(&self) -> ConnectionStatusView {
        match self {
            ConnectionStatus::Disconnected => ConnectionStatusView::Disconnected,
            ConnectionStatus::Connecting => ConnectionStatusView::Connecting,
            ConnectionStatus::Connected => ConnectionStatusView::Connected,
            ConnectionStatus::Reconnecting { attempt, next_retry } =>
                ConnectionStatusView::Reconnecting { attempt: *attempt, next_retry: *next_retry },
            ConnectionStatus::Failed { error, last_attempt } =>
                ConnectionStatusView::Failed { error: error@, last_attempt: *last_attempt },
        }
    }
}

/// Copies a connection state.
pub fn clone_status(s: &ConnectionStatus) -> (r: ConnectionStatus)
    ensures
        r@ == s@,
{
    match s {
        ConnectionStatus::Disconnected => ConnectionStatus::Disconnected,
        ConnectionStatus::Connecting => ConnectionStatus::Connecting,
        ConnectionStatus::Connected => ConnectionStatus::Connected,
        ConnectionStatus::Reconnecting { attempt, next_retry } =>
            ConnectionStatus::Reconnecting { attempt: *attempt, next_retry: *next_retry },
        ConnectionStatus::Failed { error, last_attempt } =>
            ConnectionStatus::Failed { error: error.clone(), last_attempt: *last_attempt },
    }
}

/// A pooled connection.
#[derive(Debug)]
pub struct WebSocketConnection {
    pub id: String,
    pub url: String,
    pub status: ConnectionStatus,
    pub stream_types: Vec<StreamType>,
    pub quality: ConnectionQuality,
    pub created_at: u64,
    pub last_active: u64,
}

/// A pooled connection as values.
pub struct WebSocketConnectionView {
    pub id: Seq<char>,
    pub url: Seq<char>,
    pub status: ConnectionStatusView,
    pub stream_types: Seq<StreamType>,
    pub quality: ConnectionQuality,
    pub created_at: u64,
    pub last_active: u64,
}

impl View for WebSocketConnection {
    type V = WebSocketConnectionView;

    open spec fn view(&self) -> WebSocketConnectionView {
        WebSocketConnectionView {
            id: self.id@,
            url: self.url@,
            status: self.status@,
            stream_types: self.stream_types@,
            quality: self.quality,
            created_at: self.created_at,
            last_active: self.last_active,
        }
    }
}

/// Settings of the pool. Durations are in milliseconds.
#[derive(Debug, Clone, Copy, PartialEq, Eq, Structural)]
pub struct WebSocketManagerConfig {
    pub max_connections: usize,
    pub max_streams_per_connection: usize,
    pub connection_timeout_ms: u64,
    pub heartbeat_interval_ms: u64,
    pub reconnect_interval_ms: u64,
    pub max_reconnect_attempts: u32,
    pub quality_check_interval_ms: u64,
    pub strategy: ConnectionStrategy,
}

impl Default for WebSocketManagerConfig {
    fn default() -> (r: Self)
        ensures
            r == (WebSocketManagerConfig {
                max_connections: 10,
                max_streams_per_connection: 200,
                connection_timeout_ms: 30000,
                heartbeat_interval_ms: 30000,
                reconnect_interval_ms: 5000,
                max_reconnect_attempts: 5,
                quality_check_interval_ms: 60000,
                strategy: ConnectionStrategy::Hybrid,
            }),
    {
        WebSocketManagerConfig {
            max_connections: 10,
            max_streams_per_connection: 200,
            connection_timeout_ms: 30000,
            heartbeat_interval_ms: 30000,
            reconnect_interval_ms: 5000,
            max_reconnect_attempts: 5,
            quality_check_interval_ms: 60000,
            strategy: ConnectionStrategy::Hybrid,
        }
    }
}

/// Which connection carries each stream kind.
#[derive(Debug)]
pub struct StreamMap {
    /// One slot per stream kind, by `stream_index`.
    pub slots: Vec<Option<String>>,
}

impl StreamMap {
    /// One slot per stream kind.
    pub open spec fn wf(&self) -> bool {
        self.slots@.len() == STREAM_TYPE_COUNT
    }

    /// The model: each stream kind with a connection, mapped to its identifier.
    pub open spec fn view(&self) -> Map<StreamType, Seq<char>> {
        Map::new(
            |s: StreamType| self.slots@[stream_index(s)] is Some,
            |s: StreamType| self.slots@[stream_index(s)]->0@,
        )
    }

    /// No stream kind has a connection.
    pub fn new() -> (r: Self)
        ensures
            r.wf(),
            r.view() == Map::<StreamType, Seq<char>>::empty(),
    {
        let mut slots: Vec<Option<String>> = Vec::new();
        let mut i: usize = 0;
        while i < STREAM_TYPE_COUNT
            invariant
                i <= STREAM_TYPE_COUNT,
                slots@.len() == i,
                forall|j: int| 0 <= j < i ==> #[trigger] slots@[j] is None,
            decreases STREAM_TYPE_COUNT - i,
        {
            slots.push(None);
            i = i + 1;
        }
        let r = StreamMap { slots };
        assert(r.view() =~= Map::<StreamType, Seq<char>>::empty());
        r
    }

    /// The connection carrying `s`, if any.
    pub fn get(&self, s: StreamType) -> (r: Option<String>)
        requires
            self.wf(),
        ensures
            match r {
                Some(id) => self.view().contains_key(s) && id@ == self.view()[s],
                None => !self.view().contains_key(s),
            },
    {
        match &self.slots[stream_slot(s)] {
            Some(id) => Some(id.clone()),
            None => None,
        }
    }

    /// Whether some connection carries `s`.
    pub fn contains_key(&self, s: StreamType) -> (r: bool)
        requires
            self.wf(),
        ensures
            r == self.view().contains_key(s),
    {
        self.slots[stream_slot(s)].is_some()
    }

    /// Whether no stream kind has a connection.
    pub fn is_empty(&self) -> (r: bool)
        requires
            self.wf(),
        ensures
            r == (self.view().dom() == Set::<StreamType>::empty()),
    {
        let mut i: usize = 0;
        while i < STREAM_TYPE_COUNT
            invariant
                self.wf(),
                i <= STREAM_TYPE_COUNT,
                forall|j: int| 0 <= j < i ==> #[trigger] self.slots@[j] is None,
            decreases STREAM_TYPE_COUNT - i,
        {
            if self.slots[i].is_some() {
                proof {
                    let s = stream_at(i as int);
                    assert(self.view().dom().contains(s));
                }
                return false;
            }
            i = i + 1;
        }
        proof {
            assert forall|s: StreamType| !self.view().dom().contains(s) by {
                assert(self.slots@[stream_index(s)] is None);
            }
            assert(self.view().dom() =~= Set::<StreamType>::empty());
        }
        true
    }

    /// Lets connection `id` carry `s`.
    pub fn insert(&mut self, s: StreamType, id: String)
        requires
            old(self).wf(),
        ensures
            final(self).wf(),
            final(self).view() == old(self).view().insert(s, id@),
    {
        self.slots.set(stream_slot(s), Some(id));
        proof {
            assert forall|t: StreamType| stream_index(t) == stream_index(s) implies t == s by {
                lemma_stream_index_injective(t, s);
            }
            assert(self.view() =~= old(self).view().insert(s, id@));
        }
    }

    /// Leaves `s` without a connection.
    pub fn remove(&mut self, s: StreamType)
        requires
            old(self).wf(),
        ensures
            final(self).wf(),
            final(self).view() == old(self).view().remove(s),
    {
        self.slots.set(stream_slot(s), None);
        proof {
            assert forall|t: StreamType| stream_index(t) == stream_index(s) implies t == s by {
                lemma_stream_index_injective(t, s);
            }
            assert(self.view() =~= old(self).view().remove(s));
        }
    }
}

/// The stream kind at a table position.
pub open spec fn stream_at(i: int) -> StreamType {
    if i == 0 { StreamType::MarketData }
    else if i == 1 { StreamType::UserData }
    else if i == 2 { StreamType::OrderBook }
    else if i == 3 { StreamType::Trade }
    else if i == 4 { StreamType::Kline }
    else { StreamType::Ticker }
}

/// Different stream kinds have different table positions.
proof fn lemma_stream_index_injective(a: StreamType, b: StreamType)
    ensures
        stream_index(a) == stream_index(b) ==> a == b,
        0 <= stream_index(a) < STREAM_TYPE_COUNT,
        stream_at(stream_index(a)) == a,
{
}

/// The pool of WebSocket connections.
#[derive(Debug)]
pub struct WebSocketManager {
    pub config: WebSocketManagerConfig,
    pub connections: StrMap<WebSocketConnection>,
    pub stream_to_connection: StreamMap,
    pub is_running: bool,
}

/// Whether a connection may be retried: it failed and has been retried fewer than `max`
/// times.
pub open spec fn spec_due_for_reconnect(c: WebSocketConnectionView, max: u32) -> bool {
    c.status is Failed && c.quality.reconnect_count < max
}

/// A connection after it was scheduled for a retry at `next`.
pub open spec fn spec_scheduled(c: WebSocketConnectionView, next: u64) -> WebSocketConnectionView {
    WebSocketConnectionView {
        status: ConnectionStatusView::Reconnecting { attempt: (c.quality.reconnect_count + 1) as u32, next_retry: next },
        quality: ConnectionQuality { reconnect_count: (c.quality.reconnect_count + 1) as u32, ..c.quality },
        ..c
    }
}

impl WebSocketManager {
    /// The pool is well formed.
    pub open spec fn wf(&self) -> bool {
        self.connections.wf() && self.stream_to_connection.wf()
    }

    /// The connections, by identifier.
    pub open spec fn pool(&self) -> Map<Seq<char>, WebSocketConnectionView> {
        self.connections.view()
    }

    /// An empty pool, not running.
    pub fn new(config: WebSocketManagerConfig) -> (r: Self)
        ensures
            r.wf(),
            r.config == config,
            r.pool() == Map::<Seq<char>, WebSocketConnectionView>::empty(),
            r.stream_to_connection.view() == Map::<StreamType, Seq<char>>::empty(),
            !r.is_running,
    {
        WebSocketManager {
            config,
            connections: StrMap::new(),
            stream_to_connection: StreamMap::new(),
            is_running: false,
        }
    }

    /// Marks the pool as running. Returns whether it was stopped, in which case the caller
    /// starts the quality and reconnection monitors.
    pub fn start(&mut self) -> (r: bool)
        ensures
            r == !old(self).is_running,
            final(self).is_running,
            final(self).config == old(self).config,
            final(self).connections == old(self).connections,
            final(self).stream_to_connection == old(self).stream_to_connection,
    {
        if self.is_running {
            return false;
        }
        self.is_running = true;
        true
    }

    /// Marks the pool as stopped. Returns the identifiers of the connections to close, in
    /// pool order, when it was running, and none otherwise.
    pub fn stop(&mut self) -> (r: Vec<String>)
        requires
            old(self).wf(),
        ensures
            !final(self).is_running,
            final(self).config == old(self).config,
            final(self).connections == old(self).connections,
            final(self).stream_to_connection == old(self).stream_to_connection,
            !old(self).is_running ==> r@.len() == 0,
            old(self).is_running ==> {
                &&& r@.len() == old(self).connections.entries@.len()
                &&& forall|i: int| 0 <= i < r@.len() ==> (#[trigger] r@[i])@ == old(self).connections.key_seq()[i]
            },
    {
        if !self.is_running {
            return Vec::new();
        }
        self.is_running = false;
        self.connection_ids()
    }

    /// The identifiers of the connections, in pool order.
    pub fn connection_ids(&self) -> (r: Vec<String>)
        ensures
            r@.len() == self.connections.entries@.len(),
            forall|i: int| 0 <= i < r@.len() ==> (#[trigger] r@[i])@ == self.connections.key_seq()[i],
    {
        let n = self.connections.entries.len();
        let mut out: Vec<String> = Vec::new();
        let mut i: usize = 0;
        while i < n
            invariant
                n == self.connections.entries@.len(),
                i <= n,
                out@.len() == i,
                forall|j: int| 0 <= j < i ==> (#[trigger] out@[j])@ == self.connections.key_seq()[j],
            decreases n - i,
        {
            out.push(self.connections.entries[i].0.clone());
            i = i + 1;
        }
        out
    }

    /// Adds connection `connection_id` to `url` carrying `stream_types`, created at `now`
    /// and still connecting; each of its stream kinds is routed to it. An identifier in use
    /// and a full pool are errors.
    pub fn connect_at(
        &mut self,
        connection_id: String,
        url: String,
        stream_types: Vec<StreamType>,
        now: u64,
    ) -> (r: Result<(), WebSocketManagerError>)
        requires
            old(self).wf(),
        ensures
            final(self).wf(),
            final(self).config == old(self).config,
            final(self).is_running == old(self).is_running,
            old(self).pool().contains_key(connection_id@) ==> {
                &&& r matches Err(WebSocketManagerError::ConnectionExists(id)) && id@ == connection_id@
                &&& final(self).pool() == old(self).pool()
                &&& final(self).stream_to_connection.view() == old(self).stream_to_connection.view()
            },
            !old(self).pool().contains_key(connection_id@) && old(self).pool().len() >= old(self).config.max_connections ==> {
                &&& r matches Err(WebSocketManagerError::PoolFull)
                &&& final(self).pool() == old(self).pool()
                &&& final(self).stream_to_connection.view() == old(self).stream_to_connection.view()
            },
            !old(self).pool().contains_key(connection_id@) && old(self).pool().len() < old(self).config.max_connections ==> {
                &&& r is Ok
                &&& final(self).pool() == old(self).pool().insert(connection_id@, WebSocketConnectionView {
                    id: connection_id@,
                    url: url@,
                    status: ConnectionStatusView::Connecting,
                    stream_types: stream_types@,
                    quality: ConnectionQuality {
                        latency_ms: 0,
                        packet_loss_ppm: 0,
                        stability_permille: 1000,
                        last_updated: now,
                        uptime_seconds: 0,
                        reconnect_count: 0,
                    },
                    created_at: now,
                    last_active: now,
                })
                &&& final(self).stream_to_connection.view() == Map::new(
                    |s: StreamType| old(self).stream_to_connection.view().contains_key(s) || stream_types@.contains(s),
                    |s: StreamType| if stream_types@.contains(s) { connection_id@ } else { old(self).stream_to_connection.view()[s] },
                )
            },
    {
        if self.connections.contains(connection_id.as_str()) {
            return Err(WebSocketManagerError::ConnectionExists(connection_id));
        }
        proof {
            self.connections.lemma_len_matches();
        }
        if self.connections.len() >= self.config.max_connections {
            return Err(WebSocketManagerError::PoolFull);
        }
        route_streams(&mut self.stream_to_connection, &stream_types, &connection_id);
        let connection = WebSocketConnection {
            id: connection_id.clone(),
            url,
            status: ConnectionStatus::Connecting,
            stream_types,
            quality: ConnectionQuality::default_at(now),
            created_at: now,
            last_active: now,
        };
        self.connections.insert(connection_id, connection);
        Ok(())
    }

    /// Removes connection `connection_id` and the routes of its stream kinds. An unknown
    /// identifier is an error.
    pub fn disconnect(&mut self, connection_id: &str) -> (r: Result<(), WebSocketManagerError>)
        requires
            old(self).wf(),
        ensures
            final(self).wf(),
            final(self).config == old(self).config,
            final(self).is_running == old(self).is_running,
            final(self).pool() == old(self).pool().remove(connection_id@),
            !old(self).pool().contains_key(connection_id@) ==> {
                &&& r matches Err(WebSocketManagerError::ConnectionNotFound(id)) && id@ == connection_id@
                &&& final(self).stream_to_connection.view() == old(self).stream_to_connection.view()
            },
            old(self).pool().contains_key(connection_id@) ==> {
                let kinds = old(self).pool()[connection_id@].stream_types;
                &&& r is Ok
                &&& final(self).stream_to_connection.view() == old(self).stream_to_connection.view().remove_keys(kinds.to_set())
            },
    {
        let found = self.connections.find(connection_id);
        match found {
            None => {
                assert(self.pool() =~= old(self).pool().remove(connection_id@));
                Err(WebSocketManagerError::ConnectionNotFound(owned(connection_id)))
            },
            Some(idx) => {
                proof {
                    self.connections.lemma_entry(idx as int);
                }
                let kinds = copy_streams(&self.connections.entries[idx].1.stream_types);
                unroute_streams(&mut self.stream_to_connection, &kinds);
                self.connections.remove(connection_id);
                Ok(())
            },
        }
    }

    /// The connection that carries `stream_type`, if any.
    pub fn get_connection_for_stream(&self, stream_type: StreamType) -> (r: Option<String>)
        requires
            self.wf(),
        ensures
            match r {
                Some(id) => self.stream_to_connection.view().contains_key(stream_type)
                    && id@ == self.stream_to_connection.view()[stream_type],
                None => !self.stream_to_connection.view().contains_key(stream_type),
            },
    {
        self.stream_to_connection.get(stream_type)
    }

    /// The quality of connection `connection_id`, if it exists.
    pub fn get_connection_quality(&self, connection_id: &str) -> (r: Option<ConnectionQuality>)
        requires
            self.wf(),
        ensures
            match r {
                Some(q) => self.pool().contains_key(connection_id@) && q == self.pool()[connection_id@].quality,
                None => !self.pool().contains_key(connection_id@),
            },
    {
        match self.connections.get(connection_id) {
            Some(c) => Some(c.quality),
            None => None,
        }
    }

    /// Every connection with its state, in pool order.
    pub fn get_all_connections(&self) -> (r: Vec<(String, ConnectionStatus)>)
        requires
            self.wf(),
        ensures
            r@.len() == self.connections.entries@.len(),
            forall|i: int| 0 <= i < r@.len() ==> {
                &&& (#[trigger] r@[i]).0@ == self.connections.entries@[i].0@
                &&& r@[i].1@ == self.connections.entries@[i].1.status@
            },
    {
        let n = self.connections.entries.len();
        let mut out: Vec<(String, ConnectionStatus)> = Vec::new();
        let mut i: usize = 0;
        while i < n
            invariant
                n == self.connections.entries@.len(),
                i <= n,
                out@.len() == i,
                forall|j: int| 0 <= j < i ==> {
                    &&& (#[trigger] out@[j]).0@ == self.connections.entries@[j].0@
                    &&& out@[j].1@ == self.connections.entries@[j].1.status@
                },
            decreases n - i,
        {
            let e = &self.connections.entries[i];
            out.push((e.0.clone(), clone_status(&e.1.status)));
            i = i + 1;
        }
        out
    }

    /// Marks connection `connection_id` as connected and active at `now`. Returns whether
    /// it exists.
    pub fn mark_connected_at(&mut self, connection_id: &str, now: u64) -> (found: bool)
        requires
            old(self).wf(),
        ensures
            final(self).wf(),
            found == old(self).pool().contains_key(connection_id@),
            final(self).pool() == if found {
                old(self).pool().insert(connection_id@, WebSocketConnectionView {
                    status: ConnectionStatusView::Connected,
                    last_active: now,
                    ..old(self).pool()[connection_id@]
                })
            } else {
                old(self).pool()
            },
            final(self).config == old(self).config,
            final(self).is_running == old(self).is_running,
            final(self).stream_to_connection == old(self).stream_to_connection,
    {
        match self.connections.find(connection_id) {
            Some(i) => {
                proof {
                    self.connections.lemma_entry(i as int);
                }
                let c = &self.connections.entries[i].1;
                let updated = rebuilt(c, ConnectionStatus::Connected, c.quality, now);
                self.connections.set_value_at(i, updated);
                true
            },
            None => false,
        }
    }

    /// Notes activity on connection `connection_id` at `now`. Returns whether it exists.
    pub fn touch_at(&mut self, connection_id: &str, now: u64) -> (found: bool)
        requires
            old(self).wf(),
        ensures
            final(self).wf(),
            found == old(self).pool().contains_key(connection_id@),
            final(self).pool() == if found {
                old(self).pool().insert(connection_id@, WebSocketConnectionView {
                    last_active: now,
                    ..old(self).pool()[connection_id@]
                })
            } else {
                old(self).pool()
            },
            final(self).config == old(self).config,
            final(self).is_running == old(self).is_running,
            final(self).stream_to_connection == old(self).stream_to_connection,
    {
        match self.connections.find(connection_id) {
            Some(i) => {
                proof {
                    self.connections.lemma_entry(i as int);
                }
                let c = &self.connections.entries[i].1;
                let updated = rebuilt(c, clone_status(&c.status), c.quality, now);
                self.connections.set_value_at(i, updated);
                true
            },
            None => false,
        }
    }

    /// Records a new quality measurement for connection `connection_id`. Returns whether it
    /// exists.
    pub fn set_quality(&mut self, connection_id: &str, quality: ConnectionQuality) -> (found: bool)
        requires
            old(self).wf(),
        ensures
            final(self).wf(),
            found == old(self).pool().contains_key(connection_id@),
            final(self).pool() == if found {
                old(self).pool().insert(connection_id@, WebSocketConnectionView {
                    quality: quality,
                    ..old(self).pool()[connection_id@]
                })
            } else {
                old(self).pool()
            },
            final(self).config == old(self).config,
            final(self).is_running == old(self).is_running,
            final(self).stream_to_connection == old(self).stream_to_connection,
    {
        match self.connections.find(connection_id) {
            Some(i) => {
                proof {
                    self.connections.lemma_entry(i as int);
                }
                let c = &self.connections.entries[i].1;
                let updated = rebuilt(c, clone_status(&c.status), quality, c.last_active);
                self.connections.set_value_at(i, updated);
                true
            },
            None => false,
        }
    }

    /// Schedules a retry, at `now` plus the whole seconds of the reconnection interval, for
    /// every failed connection retried fewer times than allowed; its retry count grows by one.
    pub fn schedule_reconnects_at(&mut self, now: u64)
        requires
            old(self).wf(),
            now + (old(self).config.reconnect_interval_ms / 1000) * 1000 <= u64::MAX,
        ensures
            final(self).wf(),
            final(self).config == old(self).config,
            final(self).is_running == old(self).is_running,
            final(self).stream_to_connection == old(self).stream_to_connection,
            final(self).pool() == Map::new(
                |k: Seq<char>| old(self).pool().contains_key(k),
                |k: Seq<char>| if spec_due_for_reconnect(old(self).pool()[k], old(self).config.max_reconnect_attempts) {
                    spec_scheduled(old(self).pool()[k], (now + (old(self).config.reconnect_interval_ms / 1000) * 1000) as u64)
                } else {
                    old(self).pool()[k]
                },
            ),
    {
        let next = now + (self.config.reconnect_interval_ms / 1000) * 1000;
        schedule_in_pool(&mut self.connections, self.config.max_reconnect_attempts, next);
    }
}


/// Routes each kind of `kinds` to connection `id`.
pub fn route_streams(map: &mut StreamMap, kinds: &Vec<StreamType>, id: &String)
    requires
        old(map).wf(),
    ensures
        final(map).wf(),
        final(map).view() == Map::new(
            |s: StreamType| old(map).view().contains_key(s) || kinds@.contains(s),
            |s: StreamType| if kinds@.contains(s) { id@ } else { old(map).view()[s] },
        ),
{
    let ghost routes0 = map.view();
    let n = kinds.len();
    let mut i: usize = 0;
    while i < n
        invariant
            map.wf(),
            n == kinds@.len(),
            i <= n,
            map.view() == Map::new(
                |s: StreamType| routes0.contains_key(s) || kinds@.take(i as int).contains(s),
                |s: StreamType| if kinds@.take(i as int).contains(s) { id@ } else { routes0[s] },
            ),
        decreases n - i,
    {
        map.insert(kinds[i], id.clone());
        proof {
            let t0 = kinds@.take(i as int);
            let t1 = kinds@.take(i + 1);
            assert(t1 =~= t0.push(kinds@[i as int]));
            assert forall|s: StreamType| #[trigger] t1.contains(s) == (t0.contains(s) || s == kinds@[i as int]) by {
                if t1.contains(s) {
                    let j = choose|j: int| 0 <= j < t1.len() && t1[j] == s;
                    if j < i {
                        assert(t0[j] == s);
                    }
                }
                if t0.contains(s) {
                    let j = choose|j: int| 0 <= j < t0.len() && t0[j] == s;
                    assert(t1[j] == s);
                }
                if s == kinds@[i as int] {
                    assert(t1[i as int] == s);
                }
            }
            assert(map.view() =~= Map::new(
                |s: StreamType| routes0.contains_key(s) || t1.contains(s),
                |s: StreamType| if t1.contains(s) { id@ } else { routes0[s] },
            ));
        }
        i = i + 1;
    }
    proof {
        assert(kinds@.take(n as int) =~= kinds@);
    }
}

/// Removes the routes of each kind of `kinds`.
pub fn unroute_streams(map: &mut StreamMap, kinds: &Vec<StreamType>)
    requires
        old(map).wf(),
    ensures
        final(map).wf(),
        final(map).view() == old(map).view().remove_keys(kinds@.to_set()),
{
    let ghost routes0 = map.view();
    let n = kinds.len();
    let mut i: usize = 0;
    proof {
        assert(kinds@.take(0).to_set() =~= Set::<StreamType>::empty());
        assert(routes0.remove_keys(Set::<StreamType>::empty()) =~= routes0);
    }
    while i < n
        invariant
            map.wf(),
            n == kinds@.len(),
            i <= n,
            map.view() == routes0.remove_keys(kinds@.take(i as int).to_set()),
        decreases n - i,
    {
        map.remove(kinds[i]);
        proof {
            assert(kinds@.take(i + 1) =~= kinds@.take(i as int).push(kinds@[i as int]));
            kinds@.take(i as int).lemma_push_to_set_commute(kinds@[i as int]);
            assert(map.view() =~= routes0.remove_keys(kinds@.take(i + 1).to_set()));
        }
        i = i + 1;
    }
    proof {
        assert(kinds@.take(n as int) =~= kinds@);
    }
}

/// Schedules every failed connection of `pool` retried fewer than `max` times for a
/// retry at `next`.
pub fn schedule_in_pool(pool: &mut StrMap<WebSocketConnection>, max: u32, next: u64)
    requires
        old(pool).wf(),
    ensures
        final(pool).wf(),
        final(pool).view() == Map::new(
            |k: Seq<char>| old(pool).view().contains_key(k),
            |k: Seq<char>| if spec_due_for_reconnect(old(pool).view()[k], max) {
                spec_scheduled(old(pool).view()[k], next)
            } else {
                old(pool).view()[k]
            },
        ),
{
    let ghost m0 = pool.view();
    let ghost keys = pool.key_seq();
    let ghost e0 = pool.entries@;
    let n = pool.entries.len();
    let mut i: usize = 0;
    proof {
        assert(keys.take(0) =~= Seq::<Seq<char>>::empty());
        assert(pool.view() =~= Map::new(
            |k: Seq<char>| m0.contains_key(k),
            |k: Seq<char>| if keys.take(0).contains(k) && spec_due_for_reconnect(m0[k], max) {
                spec_scheduled(m0[k], next)
            } else {
                m0[k]
            },
        ));
    }
    while i < n
        invariant
            pool.wf(),
            pool.key_seq() == keys,
            n == e0.len(),
            pool.entries@.len() == n,
            i <= n,
            forall|j: int| i <= j < n ==> #[trigger] pool.entries@[j] == e0[j],
            old(pool).entries@ == e0,
            old(pool).view() == m0,
            old(pool).wf(),
            keys == old(pool).key_seq(),
            pool.view() == Map::new(
                |k: Seq<char>| m0.contains_key(k),
                |k: Seq<char>| if keys.take(i as int).contains(k) && spec_due_for_reconnect(m0[k], max) {
                    spec_scheduled(m0[k], next)
                } else {
                    m0[k]
                },
            ),
        decreases n - i,
    {
        let ghost k = e0[i as int].0@;
        proof {
            old(pool).lemma_entry(i as int);
            pool.lemma_entry(i as int);
            assert(keys[i as int] == k);
            assert(!keys.take(i as int).contains(k)) by {
                if keys.take(i as int).contains(k) {
                    let j = choose|j: int| 0 <= j < keys.take(i as int).len() && keys.take(i as int)[j] == k;
                    assert(keys[j] == e0[j].0@);
                    assert(e0[j].0@ == e0[i as int].0@);
                }
            }
            assert(pool.view()[k] == m0[k]);
            assert(keys.take(i + 1) =~= keys.take(i as int).push(k));
            assert forall|q: Seq<char>| #[trigger] keys.take(i + 1).contains(q) == (keys.take(i as int).contains(q) || q == k) by {
                let t0 = keys.take(i as int);
                let t1 = keys.take(i + 1);
                if t1.contains(q) {
                    let j = choose|j: int| 0 <= j < t1.len() && t1[j] == q;
                    if j < i {
                        assert(t0[j] == q);
                    }
                }
                if t0.contains(q) {
                    let j = choose|j: int| 0 <= j < t0.len() && t0[j] == q;
                    assert(t1[j] == q);
                }
                if q == k {
                    assert(t1[i as int] == q);
                }
            }
        }
        let e = &pool.entries[i];
        let due = match &e.1.status {
            ConnectionStatus::Failed { .. } => e.1.quality.reconnect_count < max,
            _ => false,
        };
        if due {
            let count = e.1.quality.reconnect_count + 1;
            let updated = WebSocketConnection {
                id: e.1.id.clone(),
                url: e.1.url.clone(),
                status: ConnectionStatus::Reconnecting { attempt: count, next_retry: next },
                stream_types: copy_streams(&e.1.stream_types),
                quality: ConnectionQuality { reconnect_count: count, ..e.1.quality },
                created_at: e.1.created_at,
                last_active: e.1.last_active,
            };
            proof {
                assert(updated@ == spec_scheduled(m0[k], next));
            }
            pool.set_value_at(i, updated);
            proof {
                assert(pool.view() =~= Map::new(
                    |q: Seq<char>| m0.contains_key(q),
                    |q: Seq<char>| if keys.take(i + 1).contains(q) && spec_due_for_reconnect(m0[q], max) {
                        spec_scheduled(m0[q], next)
                    } else {
                        m0[q]
                    },
                ));
            }
        } else {
            proof {
                assert(!spec_due_for_reconnect(m0[k], max));
                assert(pool.view() =~= Map::new(
                    |q: Seq<char>| m0.contains_key(q),
                    |q: Seq<char>| if keys.take(i + 1).contains(q) && spec_due_for_reconnect(m0[q], max) {
                        spec_scheduled(m0[q], next)
                    } else {
                        m0[q]
                    },
                ));
            }
        }
        i = i + 1;
    }
    proof {
        assert(keys.take(n as int) =~= keys);
        assert forall|k: Seq<char>| m0.contains_key(k) implies #[trigger] keys.contains(k) by {
            let j = old(pool).index_of(k);
            assert(keys[j] == k);
        }
        assert(pool.view() =~= Map::new(
            |k: Seq<char>| m0.contains_key(k),
            |k: Seq<char>| if spec_due_for_reconnect(m0[k], max) { spec_scheduled(m0[k], next) } else { m0[k] },
        ));
    }
}

/// A copy of connection `c` with the given state, quality and time of last activity.
pub fn rebuilt(c: &WebSocketConnection, status: ConnectionStatus, quality: ConnectionQuality, last_active: u64) -> (r: WebSocketConnection)
    ensures
        r@ == (WebSocketConnectionView { status: status@, quality: quality, last_active: last_active, ..c@ }),
{
    WebSocketConnection {
        id: c.id.clone(),
        url: c.url.clone(),
        status,
        stream_types: copy_streams(&c.stream_types),
        quality,
        created_at: c.created_at,
        last_active,
    }
}

/// Copies a list of stream kinds.
pub fn copy_streams(v: &Vec<StreamType>) -> (r: Vec<StreamType>)
    ensures
        r@ == v@,
{
    let r = v.clone();
    assert(r@ =~= v@);
    r
}

/// Chooses connection strategies.
pub struct ConnectionStrategySelector;

/// The strategy for a set of streams: one kind, or a pool at four fifths of its size or
/// more, shares a connection; user data gets its own; otherwise the choice is mixed.
pub open spec fn spec_select_strategy(stream_types: Seq<StreamType>, current: nat, max: nat) -> ConnectionStrategy {
    if stream_types.len() == 1 {
        ConnectionStrategy::Multiplexed
    } else if current >= max * 8 / 10 {
        ConnectionStrategy::Multiplexed
    } else if stream_types.contains(StreamType::UserData) {
        ConnectionStrategy::Independent
    } else {
        ConnectionStrategy::Hybrid
    }
}

/// Whether a stream of kind `s` needs a new connection under `strategy`, given the
/// current routes: shared connections only when there is none yet, own connections when
/// the kind has none, and in the mixed mode own connections for user data only.
pub open spec fn spec_needs_new_connection(s: StreamType, strategy: ConnectionStrategy, routes: Map<StreamType, Seq<char>>) -> bool {
    match strategy {
        ConnectionStrategy::Multiplexed => routes.dom() == Set::<StreamType>::empty(),
        ConnectionStrategy::Independent => !routes.contains_key(s),
        ConnectionStrategy::Hybrid => match s {
            StreamType::UserData => !routes.contains_key(s),
            _ => routes.dom() == Set::<StreamType>::empty(),
        },
    }
}

impl ConnectionStrategySelector {
    /// The strategy for a set of streams.
    pub fn select_strategy(
        stream_types: &Vec<StreamType>,
        current_connections: usize,
        max_connections: usize,
    ) -> (r: ConnectionStrategy)
        requires
            max_connections * 8 <= usize::MAX,
        ensures
            r == spec_select_strategy(stream_types@, current_connections as nat, max_connections as nat),
    {
        if stream_types.len() == 1 {
            return ConnectionStrategy::Multiplexed;
        }
        if current_connections >= max_connections * 8 / 10 {
            return ConnectionStrategy::Multiplexed;
        }
        let n = stream_types.len();
        let mut i: usize = 0;
        while i < n
            invariant
                n == stream_types@.len(),
                n != 1,
                current_connections < max_connections * 8 / 10,
                i <= n,
                forall|j: int| 0 <= j < i ==> stream_types@[j] != StreamType::UserData,
            decreases n - i,
        {
            if stream_types[i] == StreamType::UserData {
                assert(stream_types@[i as int] == StreamType::UserData);
                assert(stream_types@.contains(StreamType::UserData));
                return ConnectionStrategy::Independent;
            }
            i = i + 1;
        }
        ConnectionStrategy::Hybrid
    }

    /// Whether a stream of kind `stream_type` needs a new connection.
    pub fn should_create_new_connection(
        stream_type: StreamType,
        strategy: ConnectionStrategy,
        existing_connections: &StreamMap,
    ) -> (r: bool)
        requires
            existing_connections.wf(),
        ensures
            r == spec_needs_new_connection(stream_type, strategy, existing_connections.view()),
    {
        match strategy {
            ConnectionStrategy::Multiplexed => existing_connections.is_empty(),
            ConnectionStrategy::Independent => !existing_connections.contains_key(stream_type),
            ConnectionStrategy::Hybrid => match stream_type {
                StreamType::UserData => !existing_connections.contains_key(stream_type),
                _ => existing_connections.is_empty(),
            },
        }
    }
}

/// How streams are spread over connections: a single stream kind, or a pool at four
/// fifths of its size or more, shares one connection; below that, a set of kinds holding
/// user data gets connections of its own and any other set is mixed. A new connection is
/// needed for a shared connection only while none exists, for an own connection when the
/// kind has none, and in the mixed mode as for an own connection for user data and as
/// for a shared one otherwise.
pub proof fn lemma_strategy_rules(
    kinds: Seq<StreamType>,
    current: nat,
    max: nat,
    s: StreamType,
    routes: Map<StreamType, Seq<char>>,
)
    ensures
        kinds.len() == 1 ==> spec_select_strategy(kinds, current, max) == ConnectionStrategy::Multiplexed,
        current * 10 >= max * 8 ==> spec_select_strategy(kinds, current, max) == ConnectionStrategy::Multiplexed,
        kinds.len() != 1 && (current + 1) * 10 <= max * 8 ==> spec_select_strategy(kinds, current, max) == (
            if kinds.contains(StreamType::UserData) {
                ConnectionStrategy::Independent
            } else {
                ConnectionStrategy::Hybrid
            }
        ),
        spec_needs_new_connection(s, ConnectionStrategy::Multiplexed, routes) == (forall|k: StreamType| !routes.contains_key(k)),
        spec_needs_new_connection(s, ConnectionStrategy::Independent, routes) == !routes.contains_key(s),
        spec_needs_new_connection(s, ConnectionStrategy::Hybrid, routes) == (if s == StreamType::UserData {
            !routes.contains_key(s)
        } else {
            spec_needs_new_connection(s, ConnectionStrategy::Multiplexed, routes)
        }),
{
    if current * 10 >= max * 8 {
        assert(current >= max * 8 / 10) by (nonlinear_arith)
            requires current * 10 >= max * 8, max >= 0;
    }
    if (current + 1) * 10 <= max * 8 {
        assert(current < max * 8 / 10) by (nonlinear_arith)
            requires (current + 1) * 10 <= max * 8, current >= 0;
    }
    if forall|k: StreamType| !routes.contains_key(k) {
        assert(routes.dom() =~= Set::<StreamType>::empty());
    }
}

} // verus!
