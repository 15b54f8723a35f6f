//! Emergency ping: when no pong has arrived for too long, send an extra ping and track
//! its outcome, giving up after a bounded number of retries. Times are milliseconds since
//! the Unix epoch.
use vstd::prelude::*;
use crate::clock::now_millis;
use crate::text::owned;

verus! {

/// Settings of the emergency ping. Durations are in milliseconds.
#[derive(Debug, Clone, Copy, PartialEq, Eq, Structural)]
pub struct EmergencyPingConfig {
    /// How long without a pong before an emergency ping is due.
    pub trigger_threshold_ms: u64,
    /// How long to wait for the pong of an emergency ping.
    pub timeout_ms: u64,
    /// How many emergency pings may be tried before giving up.
    pub max_retries: u32,
    /// Pause between retries.
    pub retry_interval_ms: u64,
    /// Whether emergency pings are sent at all.
    pub enabled: bool,
}

impl Default for EmergencyPingConfig {
    fn default() -> (r: Self)
        ensures
            r == (EmergencyPingConfig {
                trigger_threshold_ms: 2000,
                timeout_ms: 5000,
                max_retries: 3,
                retry_interval_ms: 1000,
                enabled: true,
            }),
    {
        EmergencyPingConfig {
            trigger_threshold_ms: 2000,
            timeout_ms: 5000,
            max_retries: 3,
            retry_interval_ms: 1000,
            enabled: true,
        }
    }
}

/// What the manager remembers between calls.
#[derive(Debug, Clone, Copy, PartialEq, Eq, Structural)]
pub struct EmergencyPingState {
    pub last_ping_time: Option<u64>,
    pub last_pong_time: Option<u64>,
    pub retry_count: u32,
    pub is_emergency_pinging: bool,
    pub consecutive_failures: u32,
}

/// The state of a fresh manager: nothing sent, nothing received.
pub open spec fn spec_initial_state() -> EmergencyPingState {
    EmergencyPingState {
        last_ping_time: None,
        last_pong_time: None,
        retry_count: 0,
        is_emergency_pinging: false,
        consecutive_failures: 0,
    }
}

impl Default for EmergencyPingState {
    fn default() -> (r: Self)
        ensures
            r == spec_initial_state(),
    {
        EmergencyPingState {
            last_ping_time: None,
            last_pong_time: None,
            retry_count: 0,
            is_emergency_pinging: false,
            consecutive_failures: 0,
        }
    }
}

/// Outcome of an emergency ping.
#[derive(Debug, Clone, PartialEq, Eq)]
pub enum EmergencyPingResult {
    /// The pong came back; the round trip in milliseconds.
    Success(u64),
    /// No pong in time; more retries are left.
    Timeout,
    /// The event did not fit the state.
    Failed(String),
    /// No pong in time and the retries are used up.
    MaxRetriesExceeded,
}

/// A snapshot of the manager.
#[derive(Debug, Clone, Copy, PartialEq, Eq, Structural)]
pub struct EmergencyPingStatus {
    pub is_emergency_pinging: bool,
    pub retry_count: u32,
    pub consecutive_failures: u32,
    pub last_ping_time: Option<u64>,
    pub last_pong_time: Option<u64>,
    pub config: EmergencyPingConfig,
}

/// Milliseconds from `earlier` to `now`, or 0 when `earlier` lies after `now`.
pub open spec fn spec_elapsed(earlier: u64, now: u64) -> u64 {
    if now >= earlier {
        (now - earlier) as u64
    } else {
        0
    }
}

/// Whether an emergency ping is due at `now`: the feature is on, none is in flight, and
/// either no pong was ever received or the last one is older than the threshold.
pub open spec fn spec_should_send(c: EmergencyPingConfig, s: EmergencyPingState, now: u64) -> bool {
    c.enabled && !s.is_emergency_pinging && match s.last_pong_time {
        None => true,
        Some(p) => spec_elapsed(p, now) > c.trigger_threshold_ms,
    }
}

/// Whether an emergency ping may start: none is in flight and retries are left.
pub open spec fn spec_can_start(c: EmergencyPingConfig, s: EmergencyPingState) -> bool {
    !s.is_emergency_pinging && s.retry_count < c.max_retries
}

/// The state after a ping starts at `now`.
pub open spec fn spec_after_start(s: EmergencyPingState, now: u64) -> EmergencyPingState {
    EmergencyPingState {
        is_emergency_pinging: true,
        last_ping_time: Some(now),
        retry_count: (s.retry_count + 1) as u32,
        ..s
    }
}

/// The state after a pong arrives at `now` while a ping is in flight.
pub open spec fn spec_after_pong(s: EmergencyPingState, now: u64) -> EmergencyPingState {
    if s.last_ping_time is Some {
        EmergencyPingState {
            last_pong_time: Some(now),
            is_emergency_pinging: false,
            retry_count: 0,
            consecutive_failures: 0,
            ..s
        }
    } else {
        EmergencyPingState { last_pong_time: Some(now), is_emergency_pinging: false, ..s }
    }
}

/// The state after a ping times out.
pub open spec fn spec_after_timeout(c: EmergencyPingConfig, s: EmergencyPingState) -> EmergencyPingState {
    EmergencyPingState {
        is_emergency_pinging: false,
        consecutive_failures: (s.consecutive_failures + 1) as u32,
        retry_count: if s.retry_count >= c.max_retries { 0 } else { s.retry_count },
        ..s
    }
}

/// Decides when to send an emergency ping and keeps count of its outcomes.
#[derive(Debug, Clone)]
pub struct EmergencyPingManager {
    pub config: EmergencyPingConfig,
    pub state: EmergencyPingState,
}

impl EmergencyPingManager {
    /// A manager with the given settings and a fresh state.
    pub fn new(config: EmergencyPingConfig) -> (r: Self)
        ensures
            r.config == config,
            r.state == spec_initial_state(),
    {
        EmergencyPingManager { config, state: EmergencyPingState::default() }
    }

    /// A manager with the default settings.
    pub fn with_default_config() -> (r: Self)
        ensures
            r.config == (EmergencyPingConfig {
                trigger_threshold_ms: 2000,
                timeout_ms: 5000,
                max_retries: 3,
                retry_interval_ms: 1000,
                enabled: true,
            }),
            r.state == spec_initial_state(),
    {
        Self::new(EmergencyPingConfig::default())
    }

    /// Whether an emergency ping is due at time `now`.
    pub fn should_send_emergency_ping_at(&self, now: u64) -> (r: bool)
        ensures
            r == spec_should_send(self.config, self.state, now),
    {
        if !self.config.enabled {
            return false;
        }
        if self.state.is_emergency_pinging {
            return false;
        }
        match self.state.last_pong_time {
            Some(last_pong) => {
                let elapsed = if now >= last_pong { now - last_pong } else { 0 };
                elapsed > self.config.trigger_threshold_ms
            },
            None => true,
        }
    }

    /// Whether an emergency ping is due now, by the system clock.
    pub fn should_send_emergency_ping(&self) -> (r: bool)
        ensures
            !self.config.enabled ==> !r,
            self.state.is_emergency_pinging ==> !r,
            (self.config.enabled && !self.state.is_emergency_pinging && self.state.last_pong_time is None) ==> r,
            exists|t: u64| r == #[trigger] spec_should_send(self.config, self.state, t),
    {
        let now = now_millis();
        self.should_send_emergency_ping_at(now)
    }

    /// Starts an emergency ping at time `now`. It is refused while another is in flight
    /// and once the retries are used up.
    pub fn start_emergency_ping_at(&mut self, now: u64) -> (r: Result<(), String>)
        ensures
            final(self).config == old(self).config,
            r is Ok <==> spec_can_start(old(self).config, old(self).state),
            r is Ok ==> final(self).state == spec_after_start(old(self).state, now),
            r is Err ==> final(self).state == old(self).state,
            old(self).state.is_emergency_pinging ==> (r matches Err(m) && m@ == "紧急ping已在进行中"@),
            (!old(self).state.is_emergency_pinging && old(self).state.retry_count >= old(self).config.max_retries)
                ==> (r matches Err(m) && m@ == "已达到最大重试次数"@),
    {
        if self.state.is_emergency_pinging {
            return Err(owned("紧急ping已在进行中"));
        }
        if self.state.retry_count >= self.config.max_retries {
            return Err(owned("已达到最大重试次数"));
        }
        self.state.is_emergency_pinging = true;
        self.state.last_ping_time = Some(now);
        self.state.retry_count = self.state.retry_count + 1;
        Ok(())
    }

    /// Starts an emergency ping now, by the system clock.
    pub fn start_emergency_ping(&mut self) -> (r: Result<(), String>)
        ensures
            final(self).config == old(self).config,
            r is Ok <==> spec_can_start(old(self).config, old(self).state),
            r is Ok ==> exists|t: u64| final(self).state == spec_after_start(old(self).state, t),
            r is Err ==> final(self).state == old(self).state,
    {
        let now = now_millis();
        self.start_emergency_ping_at(now)
    }

    /// Handles the pong of an emergency ping, arriving at time `now`. A pong while no
    /// ping is in flight is reported as a failure and changes nothing.
    pub fn handle_emergency_pong_at(&mut self, now: u64) -> (r: EmergencyPingResult)
        ensures
            final(self).config == old(self).config,
            !old(self).state.is_emergency_pinging ==> {
                &&& final(self).state == old(self).state
                &&& r matches EmergencyPingResult::Failed(m) && m@ == "未在进行紧急ping"@
            },
            old(self).state.is_emergency_pinging ==> {
                &&& final(self).state == spec_after_pong(old(self).state, now)
                &&& match old(self).state.last_ping_time {
                    Some(p) => r == EmergencyPingResult::Success(spec_elapsed(p, now)),
                    None => r matches EmergencyPingResult::Failed(m) && m@ == "ping时间未记录"@,
                }
            },
    {
        if !self.state.is_emergency_pinging {
            return EmergencyPingResult::Failed(owned("未在进行紧急ping"));
        }
        self.state.last_pong_time = Some(now);
        self.state.is_emergency_pinging = false;
        match self.state.last_ping_time {
            Some(ping_time) => {
                let latency = if now >= ping_time { now - ping_time } else { 0 };
                self.state.retry_count = 0;
                self.state.consecutive_failures = 0;
                EmergencyPingResult::Success(latency)
            },
            None => EmergencyPingResult::Failed(owned("ping时间未记录")),
        }
    }

    /// Handles the pong of an emergency ping arriving now, by the system clock.
    pub fn handle_emergency_pong(&mut self) -> (r: EmergencyPingResult)
        ensures
            final(self).config == old(self).config,
            !old(self).state.is_emergency_pinging ==> final(self).state == old(self).state,
            !old(self).state.is_emergency_pinging ==> (r matches EmergencyPingResult::Failed(m) && m@ == "未在进行紧急ping"@),
            old(self).state.is_emergency_pinging ==> exists|t: u64| {
                &&& final(self).state == #[trigger] spec_after_pong(old(self).state, t)
                &&& match old(self).state.last_ping_time {
                    Some(p) => r == EmergencyPingResult::Success(spec_elapsed(p, t)),
                    None => r matches EmergencyPingResult::Failed(m) && m@ == "ping时间未记录"@,
                }
            },
    {
        let now = now_millis();
        self.handle_emergency_pong_at(now)
    }

    /// Handles an emergency ping that got no pong in time. Once the retries are used up
    /// the result says so and the retry count starts over.
    pub fn handle_emergency_timeout(&mut self) -> (r: EmergencyPingResult)
        requires
            old(self).state.consecutive_failures < u32::MAX,
        ensures
            final(self).config == old(self).config,
            final(self).state == spec_after_timeout(old(self).config, old(self).state),
            r == (if old(self).state.retry_count >= old(self).config.max_retries {
                EmergencyPingResult::MaxRetriesExceeded
            } else {
                EmergencyPingResult::Timeout
            }),
    {
        self.state.is_emergency_pinging = false;
        self.state.consecutive_failures = self.state.consecutive_failures + 1;
        if self.state.retry_count >= self.config.max_retries {
            self.state.retry_count = 0;
            EmergencyPingResult::MaxRetriesExceeded
        } else {
            EmergencyPingResult::Timeout
        }
    }

    /// Forgets everything but the settings.
    pub fn reset(&mut self)
        ensures
            final(self).config == old(self).config,
            final(self).state == spec_initial_state(),
    {
        self.state = EmergencyPingState::default();
    }

    /// A snapshot of the state and the settings.
    pub fn get_status(&self) -> (r: EmergencyPingStatus)
        ensures
            r == (EmergencyPingStatus {
                is_emergency_pinging: self.state.is_emergency_pinging,
                retry_count: self.state.retry_count,
                consecutive_failures: self.state.consecutive_failures,
                last_ping_time: self.state.last_ping_time,
                last_pong_time: self.state.last_pong_time,
                config: self.config,
            }),
    {
        EmergencyPingStatus {
            is_emergency_pinging: self.state.is_emergency_pinging,
            retry_count: self.state.retry_count,
            consecutive_failures: self.state.consecutive_failures,
            last_ping_time: self.state.last_ping_time,
            last_pong_time: self.state.last_pong_time,
            config: self.config,
        }
    }

    /// Replaces the settings; the state is kept.
    pub fn update_config(&mut self, new_config: EmergencyPingConfig)
        ensures
            final(self).config == new_config,
            final(self).state == old(self).state,
    {
        self.config = new_config;
    }

    /// When the next check is due, seen at time `now`: none while a ping is in flight,
    /// the threshold after the last pong, or at once if no pong was ever received.
    pub fn get_next_ping_time_at(&self, now: u64) -> (r: Option<u64>)
        requires
            self.state.last_pong_time matches Some(p) ==> p + self.config.trigger_threshold_ms <= u64::MAX,
        ensures
            r == (if self.state.is_emergency_pinging {
                None
            } else {
                match self.state.last_pong_time {
                    Some(p) => Some((p + self.config.trigger_threshold_ms) as u64),
                    None => Some(now),
                }
            }),
    {
        if self.state.is_emergency_pinging {
            return None;
        }
        match self.state.last_pong_time {
            Some(last_pong) => Some(last_pong + self.config.trigger_threshold_ms),
            None => Some(now),
        }
    }

    /// When the next check is due, seen now by the system clock.
    pub fn get_next_ping_time(&self) -> (r: Option<u64>)
        requires
            self.state.last_pong_time matches Some(p) ==> p + self.config.trigger_threshold_ms <= u64::MAX,
        ensures
            self.state.is_emergency_pinging ==> r is None,
            !self.state.is_emergency_pinging ==> match self.state.last_pong_time {
                Some(p) => r == Some((p + self.config.trigger_threshold_ms) as u64),
                None => r is Some,
            },
    {
        let now = now_millis();
        self.get_next_ping_time_at(now)
    }
}

/// The retry count never exceeds the configured maximum: a state within the bound stays
/// within it through every start, pong and timeout.
pub proof fn lemma_retry_count_bounded(c: EmergencyPingConfig, s: EmergencyPingState, now: u64)
    requires
        s.retry_count <= c.max_retries,
    ensures
        spec_can_start(c, s) ==> spec_after_start(s, now).retry_count <= c.max_retries,
        spec_after_pong(s, now).retry_count <= c.max_retries,
        spec_after_timeout(c, s).retry_count <= c.max_retries,
{
}

/// A ping that started at `t0` and got its pong at `t1 >= t0` ends with no ping in flight,
/// no retries or failures counted, and the pong remembered at `t1`; the round trip is `t1 - t0`.
pub proof fn lemma_start_then_pong(c: EmergencyPingConfig, s: EmergencyPingState, t0: u64, t1: u64)
    requires
        spec_can_start(c, s),
        t0 <= t1,
    ensures
        ({
            let s1 = spec_after_start(s, t0);
            let s2 = spec_after_pong(s1, t1);
            &&& !s2.is_emergency_pinging
            &&& s2.retry_count == 0
            &&& s2.consecutive_failures == 0
            &&& s2.last_pong_time == Some(t1)
            &&& spec_elapsed(s1.last_ping_time.unwrap(), t1) == t1 - t0
            &&& !spec_should_send(c, s2, t1)
        }),
{
}

/// A ping in flight is never doubled: while one is in flight no new one is due and none may start.
pub proof fn lemma_no_ping_while_in_flight(c: EmergencyPingConfig, s: EmergencyPingState, now: u64)
    requires
        s.is_emergency_pinging,
    ensures
        !spec_should_send(c, s, now),
        !spec_can_start(c, s),
{
}

} // verus!
