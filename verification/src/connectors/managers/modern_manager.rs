//! A registry of connectors by identifier, with tags: registering refuses a taken
//! identifier, unregistering a missing one. Times are milliseconds since the Unix epoch.
use vstd::prelude::*;
use vstd::std_specs::convert::FromSpecImpl;
use crate::clock::now_millis;
use crate::connectors::traits::modern::{ConnectionEvent, HealthCheckResult, ModernConnectionStatus};
use crate::str_map::{clone_string_map, StrMap};
use crate::text::owned;
use crate::types::errors::{spec_connector_error_text, ConnectorError};

verus! {

/// Why the registry refused an operation.
#[derive(Debug)]
pub enum ManagerError {
    ConnectorNotFound { id: String },
    ConnectorAlreadyExists { id: String },
    ConnectorOperationFailed { source: ConnectorError },
    InvalidState { message: String },
}

/// The text of a registry error.
pub open spec fn spec_manager_error_text(e: ManagerError) -> Seq<char> {
    match e {
        ManagerError::ConnectorNotFound { id } => "连接器不存在: "@ + id@,
        ManagerError::ConnectorAlreadyExists { id } => "连接器已存在: "@ + id@,
        ManagerError::ConnectorOperationFailed { source } => "连接器操作失败: "@ + spec_connector_error_text(source),
        ManagerError::InvalidState { message } => "管理器状态错误: "@ + message@,
    }
}

impl ManagerError {
    /// The text of the error.
    pub fn message(&self) -> (r: String)
        ensures
            r@ == spec_manager_error_text(*self),
    {
        match self {
            ManagerError::ConnectorNotFound { id } => owned("连接器不存在: ").concat(id.as_str()),
            ManagerError::ConnectorAlreadyExists { id } => owned("连接器已存在: ").concat(id.as_str()),
            ManagerError::ConnectorOperationFailed { source } => owned("连接器操作失败: ").concat(source.message().as_str()),
            ManagerError::InvalidState { message } => owned("管理器状态错误: ").concat(message.as_str()),
        }
    }
}

impl From<ConnectorError> for ManagerError {
    fn from(source: ConnectorError) -> (r: Self) {
        ManagerError::ConnectorOperationFailed { source }
    }
}

impl FromSpecImpl<ConnectorError> for ManagerError {
    open spec fn obeys_from_spec() -> bool {
        true
    }

    open spec fn from_spec(source: ConnectorError) -> Self {
        ManagerError::ConnectorOperationFailed { source }
    }
}

/// Settings of the registry.
#[derive(Debug, Clone, Copy, PartialEq, Eq, Structural)]
pub struct ManagerConfig {
    pub startup_timeout_secs: u64,
    pub shutdown_timeout_secs: u64,
    pub health_check_interval_secs: u64,
    pub enable_auto_reconnect: bool,
    pub max_concurrent_operations: usize,
}

impl Default for ManagerConfig {
    fn default() -> (r: Self)
        ensures
            r == (ManagerConfig {
                startup_timeout_secs: 30,
                shutdown_timeout_secs: 10,
                health_check_interval_secs: 60,
                enable_auto_reconnect: true,
                max_concurrent_operations: 10,
            }),
    {
        ManagerConfig {
            startup_timeout_secs: 30,
            shutdown_timeout_secs: 10,
            health_check_interval_secs: 60,
            enable_auto_reconnect: true,
            max_concurrent_operations: 10,
        }
    }
}

/// A registered connector with its registration time, start flag and tags.
#[derive(Debug)]
pub struct ConnectorRegistration<C> {
    pub connector: C,
    pub registered_at: u64,
    pub auto_start: bool,
    pub tags: StrMap<String>,
}

/// A registration as the contracts see it: the connector, when it was registered, whether
/// it starts automatically and its tags; `tags_kept` says that the tag map is well kept.
pub struct RegistrationView<C> {
    pub connector: C,
    pub registered_at: u64,
    pub auto_start: bool,
    pub tags: Map<Seq<char>, Seq<char>>,
    pub tags_kept: bool,
}

impl<C> View for ConnectorRegistration<C> {
    type V = RegistrationView<C>;

    open spec fn view(&self) -> RegistrationView<C> {
        RegistrationView {
            connector: self.connector,
            registered_at: self.registered_at,
            auto_start: self.auto_start,
            tags: self.tags.view(),
            tags_kept: self.tags.wf(),
        }
    }
}

/// The registry.
#[derive(Debug)]
pub struct DefaultModernConnectorManager<C> {
    connectors: StrMap<ConnectorRegistration<C>>,
    config: ManagerConfig,
}

impl<C> DefaultModernConnectorManager<C> {
    /// The registrations by identifier.
    pub closed spec fn registry(&self) -> Map<Seq<char>, RegistrationView<C>> {
        self.connectors.view()
    }

    /// The settings.
    pub closed spec fn settings(&self) -> ManagerConfig {
        self.config
    }

    /// The registrations are kept well, with well-kept tags.
    pub closed spec fn wf(&self) -> bool {
        &&& self.connectors.wf()
        &&& forall|k: Seq<char>| #[trigger] self.connectors.view().contains_key(k) ==> self.connectors.view()[k].tags_kept
    }

    /// An empty registry with default settings.
    pub fn new() -> (r: Self)
        ensures
            r.wf(),
            r.registry() == Map::<Seq<char>, RegistrationView<C>>::empty(),
            r.settings() == (ManagerConfig {
                startup_timeout_secs: 30,
                shutdown_timeout_secs: 10,
                health_check_interval_secs: 60,
                enable_auto_reconnect: true,
                max_concurrent_operations: 10,
            }),
    {
        DefaultModernConnectorManager { connectors: StrMap::new(), config: ManagerConfig::default() }
    }

    /// An empty registry with these settings.
    pub fn with_config(config: ManagerConfig) -> (r: Self)
        ensures
            r.wf(),
            r.registry() == Map::<Seq<char>, RegistrationView<C>>::empty(),
            r.settings() == config,
    {
        DefaultModernConnectorManager { connectors: StrMap::new(), config }
    }

    /// Registers a connector under `id` at `now`; refused where `id` is taken, and then
    /// nothing changes.
    pub fn register_connector_with_options_at(
        &mut self,
        id: String,
        connector: C,
        auto_start: bool,
        tags: StrMap<String>,
        now: u64,
    ) -> (r: Result<(), ManagerError>)
        requires
            old(self).wf(),
            tags.wf(),
        ensures
            final(self).wf(),
            final(self).settings() == old(self).settings(),
            old(self).registry().contains_key(id@) ==> (r matches Err(ManagerError::ConnectorAlreadyExists { id: x })
                && x@ == id@ && final(self).registry() == old(self).registry()),
            !old(self).registry().contains_key(id@) ==> (r is Ok && final(self).registry() == old(self).registry().insert(
                id@,
                RegistrationView { connector, registered_at: now, auto_start, tags: tags.view(), tags_kept: true },
            )),
    {
        if self.connectors.contains(id.as_str()) {
            return Err(ManagerError::ConnectorAlreadyExists { id });
        }
        let reg = ConnectorRegistration { connector, registered_at: now, auto_start, tags };
        self.connectors.insert(id, reg);
        Ok(())
    }

    /// Registers a connector under `id` now, by the system clock.
    pub fn register_connector_with_options(&mut self, id: String, connector: C, auto_start: bool, tags: StrMap<String>) -> (r: Result<(), ManagerError>)
        requires
            old(self).wf(),
            tags.wf(),
        ensures
            final(self).wf(),
            final(self).settings() == old(self).settings(),
            old(self).registry().contains_key(id@) ==> (r matches Err(ManagerError::ConnectorAlreadyExists { id: x })
                && x@ == id@ && final(self).registry() == old(self).registry()),
            !old(self).registry().contains_key(id@) ==> (r is Ok && exists|now: u64| final(self).registry() == old(self).registry().insert(
                id@,
                RegistrationView { connector, registered_at: now, auto_start, tags: tags.view(), tags_kept: true },
            )),
    {
        let now = now_millis();
        self.register_connector_with_options_at(id, connector, auto_start, tags, now)
    }

    /// Registers a connector under `id` now, not started automatically and without tags.
    pub fn register_connector(&mut self, id: String, connector: C) -> (r: Result<(), ManagerError>)
        requires
            old(self).wf(),
        ensures
            final(self).wf(),
            final(self).settings() == old(self).settings(),
            old(self).registry().contains_key(id@) ==> (r matches Err(ManagerError::ConnectorAlreadyExists { id: x })
                && x@ == id@ && final(self).registry() == old(self).registry()),
            !old(self).registry().contains_key(id@) ==> (r is Ok && exists|now: u64| final(self).registry() == old(self).registry().insert(
                id@,
                RegistrationView { connector, registered_at: now, auto_start: false, tags: Map::empty(), tags_kept: true },
            )),
    {
        self.register_connector_with_options(id, connector, false, StrMap::new())
    }

    /// Removes the connector registered under `id`; refused where there is none.
    pub fn unregister_connector(&mut self, id: &str) -> (r: Result<(), ManagerError>)
        requires
            old(self).wf(),
        ensures
            final(self).wf(),
            final(self).settings() == old(self).settings(),
            final(self).registry() == old(self).registry().remove(id@),
            r is Ok <==> old(self).registry().contains_key(id@),
            r matches Err(e) ==> (e matches ManagerError::ConnectorNotFound { id: x } && x@ == id@),
    {
        if self.connectors.remove(id) {
            Ok(())
        } else {
            Err(ManagerError::ConnectorNotFound { id: owned(id) })
        }
    }

    /// How many connectors are registered.
    pub fn connector_count(&self) -> (r: usize)
        requires
            self.wf(),
        ensures
            r == self.registry().len(),
    {
        proof {
            self.connectors.lemma_len_matches();
        }
        self.connectors.len()
    }

    /// A copy of the tags of the connector under `id`, if there is one.
    pub fn get_connector_tags(&self, id: &str) -> (r: Option<StrMap<String>>)
        requires
            self.wf(),
        ensures
            match r {
                Some(t) => self.registry().contains_key(id@) && t.wf() && t.view() == self.registry()[id@].tags,
                None => !self.registry().contains_key(id@),
            },
    {
        match self.connectors.get(id) {
            Some(reg) => Some(clone_string_map(&reg.tags)),
            None => None,
        }
    }

    /// Whether the connector under `x` is registered with tag `key` set to `value`.
    pub open spec fn tag_matches(&self, x: Seq<char>, key: Seq<char>, value: Seq<char>) -> bool {
        &&& self.registry().contains_key(x)
        &&& self.registry()[x].tags.contains_key(key)
        &&& self.registry()[x].tags[key] == value
    }

    /// Whether one of the first `i` registrations is under `x` and matches.
    closed spec fn seen_matching(&self, i: int, x: Seq<char>, key: Seq<char>, value: Seq<char>) -> bool {
        exists|b: int| 0 <= b < i && #[trigger] self.connectors.entries@[b].0@ == x && self.tag_matches(x, key, value)
    }

    /// The identifiers whose tag `key` is `value`, in registration order.
    pub fn find_connectors_by_tag(&self, key: &str, value: &str) -> (r: Vec<String>)
        requires
            self.wf(),
        ensures
            forall|x: Seq<char>|
                #![trigger in_list(r@, x)]
                #![trigger self.tag_matches(x, key@, value@)]
                in_list(r@, x) <==> self.tag_matches(x, key@, value@),
    {
        let n = self.connectors.entries.len();
        let mut r: Vec<String> = Vec::new();
        let mut i: usize = 0;
        while i < n
            invariant
                self.wf(),
                n == self.connectors.entries@.len(),
                i <= n,
                forall|x: Seq<char>|
                    #![trigger in_list(r@, x)]
                    #![trigger self.seen_matching(i as int, x, key@, value@)]
                    in_list(r@, x) <==> self.seen_matching(i as int, x, key@, value@),
            decreases n - i,
        {
            proof {
                self.connectors.lemma_entry(i as int);
            }
            let ghost r0 = r@;
            let entry = &self.connectors.entries[i];
            let ghost k = entry.0@;
            assert(self.connectors.view()[k].tags_kept);
            let hit = match entry.1.tags.get(key) {
                Some(v) => crate::text::str_equals(v.as_str(), value),
                None => false,
            };
            assert(hit == self.tag_matches(k, key@, value@));
            if hit {
                r.push(owned(entry.0.as_str()));
            }
            proof {
                assert forall|x: Seq<char>|
                    #![trigger in_list(r@, x)]
                    #![trigger self.seen_matching(i + 1, x, key@, value@)]
                    in_list(r@, x) <==> self.seen_matching(i + 1, x, key@, value@) by {
                    if in_list(r@, x) {
                        let a = choose|a: int| 0 <= a < r@.len() && #[trigger] r@[a]@ == x;
                        if a < r0.len() {
                            assert(r0[a]@ == x);
                            assert(in_list(r0, x));
                            let b = choose|b: int| 0 <= b < i && #[trigger] self.connectors.entries@[b].0@ == x && self.tag_matches(x, key@, value@);
                            assert(self.connectors.entries@[b].0@ == x);
                        } else {
                            assert(self.connectors.entries@[i as int].0@ == x);
                        }
                    }
                    if self.seen_matching(i + 1, x, key@, value@) {
                        let b = choose|b: int| 0 <= b < i + 1 && #[trigger] self.connectors.entries@[b].0@ == x && self.tag_matches(x, key@, value@);
                        if b == i {
                            assert(r@[r@.len() - 1]@ == x);
                        } else {
                            assert(self.seen_matching(i as int, x, key@, value@));
                            assert(in_list(r0, x));
                            let a = choose|a: int| 0 <= a < r0.len() && #[trigger] r0[a]@ == x;
                            assert(r@[a]@ == x);
                        }
                    }
                }
            }
            i = i + 1;
        }
        proof {
            assert forall|x: Seq<char>|
                #![trigger in_list(r@, x)]
                #![trigger self.tag_matches(x, key@, value@)]
                in_list(r@, x) <==> self.tag_matches(x, key@, value@) by {
                if self.tag_matches(x, key@, value@) {
                    let b = self.connectors.index_of(x);
                    assert(self.connectors.entries@[b].0@ == x);
                    assert(self.seen_matching(n as int, x, key@, value@));
                }
            }
        }
        r
    }

    /// The registered identifiers, in registration order.
    pub fn list_connectors_async(&self) -> (r: Vec<String>)
        requires
            self.wf(),
        ensures
            crate::text::string_views(r@) == self.connectors_in_order(),
    {
        let n = self.connectors.entries.len();
        let mut r: Vec<String> = Vec::new();
        let mut i: usize = 0;
        while i < n
            invariant
                n == self.connectors.entries@.len(),
                i <= n,
                crate::text::string_views(r@) == self.connectors_in_order().take(i as int),
            decreases n - i,
        {
            let ghost prev = r@;
            r.push(owned(self.connectors.entries[i].0.as_str()));
            proof {
                assert(crate::text::string_views(r@) =~= crate::text::string_views(prev).push(self.connectors.entries@[i as int].0@));
                assert(self.connectors_in_order().take(i + 1) =~= self.connectors_in_order().take(i as int).push(
                    self.connectors_in_order()[i as int],
                ));
            }
            i = i + 1;
        }
        assert(self.connectors_in_order().take(n as int) =~= self.connectors_in_order());
        r
    }

    /// The registered identifiers in registration order.
    pub closed spec fn connectors_in_order(&self) -> Seq<Seq<char>> {
        self.connectors.key_seq()
    }

    /// Every identifier in order is registered, and every registered one is in order.
    pub proof fn lemma_order_matches(&self)
        requires
            self.wf(),
        ensures
            forall|x: Seq<char>| self.registry().contains_key(x) <==> #[trigger] self.connectors_in_order().contains(x),
    {
        assert forall|x: Seq<char>| self.registry().contains_key(x) <==> #[trigger] self.connectors_in_order().contains(x) by {
            if self.registry().contains_key(x) {
                let b = self.connectors.index_of(x);
                assert(self.connectors_in_order()[b] == x);
            }
            if self.connectors_in_order().contains(x) {
                let b = choose|b: int| 0 <= b < self.connectors_in_order().len() && self.connectors_in_order()[b] == x;
                assert(self.connectors.entries@[b].0@ == x);
            }
        }
    }

    /// A copy of the connector registered under `id`, if there is one.
    pub fn get_connector_async(&self, id: &str) -> (r: Option<C>)
        where C: Clone,
        requires
            self.wf(),
        ensures
            r is Some <==> self.registry().contains_key(id@),
            r matches Some(c) ==> cloned::<C>(self.registry()[id@].connector, c),
    {
        match self.connectors.get(id) {
            Some(reg) => Some(reg.connector.clone()),
            None => None,
        }
    }

    /// Runs `f` on the connector registered under `id` and gives its result; refused
    /// where there is none, and then `f` is not run.
    pub fn with_connector_async<R, F: FnOnce(&C) -> R>(&self, id: &str, f: F) -> (r: Result<R, ManagerError>)
        requires
            self.wf(),
            forall|c: &C| #[trigger] f.requires((c,)),
        ensures
            r is Ok <==> self.registry().contains_key(id@),
            r matches Err(e) ==> (e matches ManagerError::ConnectorNotFound { id: x } && x@ == id@),
            r matches Ok(v) ==> f.ensures((&self.registry()[id@].connector,), v),
    {
        match self.connectors.get(id) {
            Some(reg) => {
                let c = &reg.connector;
                let v = f(c);
                let out: Result<R, ManagerError> = Ok(v);
                assert(f.ensures((c,), out->Ok_0));
                out
            },
            None => Err(ManagerError::ConnectorNotFound { id: owned(id) }),
        }
    }

    /// The connector under `id` by reference: this registry does not lend them.
    pub fn get_connector(&self, id: &str) -> (r: Option<&C>)
        ensures
            r is None,
    {
        None
    }

    /// The identifiers, through the synchronous interface: this registry lists none there.
    pub fn list_connectors(&self) -> (r: Vec<String>)
        ensures
            r@.len() == 0,
    {
        Vec::new()
    }

    /// Starts every connector: none fails here.
    pub fn start_all(&mut self) -> (r: Result<(), ManagerError>)
        ensures
            r is Ok,
            final(self).registry() == old(self).registry(),
            final(self).settings() == old(self).settings(),
            final(self).wf() == old(self).wf(),
    {
        Ok(())
    }

    /// Stops every connector: none fails here.
    pub fn stop_all(&mut self) -> (r: Result<(), ManagerError>)
        ensures
            r is Ok,
            final(self).registry() == old(self).registry(),
            final(self).settings() == old(self).settings(),
            final(self).wf() == old(self).wf(),
    {
        Ok(())
    }

    /// The status of every connector, in registration order: all reported disconnected.
    pub fn status_all(&self) -> (r: Vec<(String, ModernConnectionStatus)>)
        ensures
            r@.len() == self.connectors_in_order().len(),
            forall|i: int| 0 <= i < r@.len() ==> (#[trigger] r@[i]).0@ == self.connectors_in_order()[i]
                && r@[i].1 == ModernConnectionStatus::Disconnected,
    {
        let n = self.connectors.entries.len();
        let mut r: Vec<(String, ModernConnectionStatus)> = Vec::new();
        let mut i: usize = 0;
        while i < n
            invariant
                n == self.connectors.entries@.len(),
                n == self.connectors_in_order().len(),
                i <= n,
                r@.len() == i,
                forall|j: int| 0 <= j < i ==> (#[trigger] r@[j]).0@ == self.connectors_in_order()[j]
                    && r@[j].1 == ModernConnectionStatus::Disconnected,
            decreases n - i,
        {
            r.push((owned(self.connectors.entries[i].0.as_str()), ModernConnectionStatus::Disconnected));
            i = i + 1;
        }
        r
    }

    /// Whether `r` holds, in registration order, one result per connector: unhealthy,
    /// checked at `now`, with no latency, details or errors and the one warning that the
    /// check is not implemented.
    pub open spec fn spec_checks_at(&self, r: Seq<(String, HealthCheckResult)>, now: u64) -> bool {
        &&& r.len() == self.connectors_in_order().len()
        &&& forall|i: int| 0 <= i < r.len() ==> {
            let h = (#[trigger] r[i]).1;
            &&& r[i].0@ == self.connectors_in_order()[i]
            &&& !h.healthy
            &&& h.checked_at == now
            &&& h.latency_us is None
            &&& h.details.wf() && h.details.view() == Map::<Seq<char>, Seq<char>>::empty()
            &&& h.warnings@.len() == 1 && h.warnings@[0]@ == "未实现健康检查"@
            &&& h.errors@.len() == 0
        }
    }

    /// The health of every connector, in registration order: all unhealthy, with the
    /// warning that the check is not implemented, checked at `now`.
    pub fn health_check_all_at(&self, now: u64) -> (r: Vec<(String, HealthCheckResult)>)
        ensures
            self.spec_checks_at(r@, now),
    {
        let n = self.connectors.entries.len();
        let mut r: Vec<(String, HealthCheckResult)> = Vec::new();
        let mut i: usize = 0;
        while i < n
            invariant
                n == self.connectors.entries@.len(),
                n == self.connectors_in_order().len(),
                i <= n,
                r@.len() == i,
                forall|j: int| 0 <= j < i ==> {
                    let h = (#[trigger] r@[j]).1;
                    &&& r@[j].0@ == self.connectors_in_order()[j]
                    &&& !h.healthy
                    &&& h.checked_at == now
                    &&& h.latency_us is None
                    &&& h.details.wf() && h.details.view() == Map::<Seq<char>, Seq<char>>::empty()
                    &&& h.warnings@.len() == 1 && h.warnings@[0]@ == "未实现健康检查"@
                    &&& h.errors@.len() == 0
                },
            decreases n - i,
        {
            let h = HealthCheckResult {
                healthy: false,
                checked_at: now,
                latency_us: None,
                details: StrMap::new(),
                warnings: vec![owned("未实现健康检查")],
                errors: Vec::new(),
            };
            r.push((owned(self.connectors.entries[i].0.as_str()), h));
            i = i + 1;
        }
        r
    }

    /// The health of every connector now, by the system clock.
    pub fn health_check_all(&self) -> (r: Vec<(String, HealthCheckResult)>)
        ensures
            exists|now: u64| #[trigger] self.spec_checks_at(r@, now),
    {
        let now = now_millis();
        let r = self.health_check_all_at(now);
        assert(self.spec_checks_at(r@, now));
        r
    }
}

/// The connection event that a metrics collector records for a registration that gave
/// `r`: a connector that joined the registry counts as connected; a refused registration
/// records nothing.
pub fn registration_event(r: &Result<(), ManagerError>) -> (e: Option<ConnectionEvent>)
    ensures
        r is Ok ==> (e matches Some(ConnectionEvent::Connected)),
        r is Err ==> e is None,
{
    match r {
        Ok(()) => Some(ConnectionEvent::Connected),
        Err(_) => None,
    }
}

/// The connection event that a metrics collector records for an unregistration that gave
/// `r`: a connector that left the registry counts as disconnected; a refused one records
/// nothing.
pub fn unregistration_event(r: &Result<(), ManagerError>) -> (e: Option<ConnectionEvent>)
    ensures
        r is Ok ==> (e matches Some(ConnectionEvent::Disconnected)),
        r is Err ==> e is None,
{
    match r {
        Ok(()) => Some(ConnectionEvent::Disconnected),
        Err(_) => None,
    }
}

/// Whether some string of `r` is `x`.
pub open spec fn in_list(r: Seq<String>, x: Seq<char>) -> bool {
    exists|a: int| 0 <= a < r.len() && #[trigger] r[a]@ == x
}

/// Registering a connector under a new identifier and then unregistering that identifier
/// leaves the registry as it was. `a` is the manager before, `b` after registering, `c`
/// after unregistering.
pub proof fn lemma_register_then_unregister<C>(
    a: DefaultModernConnectorManager<C>,
    b: DefaultModernConnectorManager<C>,
    c: DefaultModernConnectorManager<C>,
    id: Seq<char>,
    v: RegistrationView<C>,
)
    requires
        !a.registry().contains_key(id),
        b.registry() == a.registry().insert(id, v),
        c.registry() == b.registry().remove(id),
    ensures
        c.registry() == a.registry(),
{
    assert(a.registry().insert(id, v).remove(id) =~= a.registry());
}

} // verus!
