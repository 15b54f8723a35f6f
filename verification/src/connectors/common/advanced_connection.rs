//! Connection upkeep: when a run of timeouts calls for an emergency ping, how connection
//! quality is measured from latency samples and packet counts, and how a timeout follows
//! that quality. Times are milliseconds of a monotonic clock; rates, factors and scores
//! are fixed point (millionths, thousandths), each step rounded down.
use vstd::prelude::*;
use crate::connectors::common::adaptive_timeout::{
    is_isqrt, isqrt, seq_sum, spec_kept_latency, MAX_LATENCY_MS, spec_avg_us, spec_clamp, spec_var_us2, spec_windowed, sum_samples, sum_squares,
};
use crate::text::owned;
use crate::types::errors::ConnectorError;

verus! {

/// The emergency ping state of a connection.
#[derive(Debug, Clone, Copy, PartialEq, Eq, Structural)]
pub struct EmergencyPingManager {
    pub last_ping_time: u64,
    pub consecutive_timeouts: usize,
    pub emergency_ping_active: bool,
    pub threshold: u32,
}

impl EmergencyPingManager {
    /// A manager at `now` with no timeouts and no ping in flight.
    pub fn new_at(threshold: u32, now: u64) -> (r: Self)
        ensures
            r == (EmergencyPingManager { last_ping_time: now, consecutive_timeouts: 0, emergency_ping_active: false, threshold }),
    {
        EmergencyPingManager { last_ping_time: now, consecutive_timeouts: 0, emergency_ping_active: false, threshold }
    }

    /// Counts a timeout and says whether it calls for an emergency ping: the first
    /// timeout when no ping is in flight, and every timeout from the threshold on.
    pub fn handle_timeout(&mut self) -> (r: bool)
        requires
            old(self).consecutive_timeouts < usize::MAX,
        ensures
            final(self).consecutive_timeouts == old(self).consecutive_timeouts + 1,
            final(self).emergency_ping_active == old(self).emergency_ping_active,
            final(self).last_ping_time == old(self).last_ping_time,
            final(self).threshold == old(self).threshold,
            r == ((old(self).consecutive_timeouts == 0 && !old(self).emergency_ping_active)
                || old(self).consecutive_timeouts + 1 >= old(self).threshold),
    {
        let before = self.consecutive_timeouts;
        self.consecutive_timeouts = before + 1;
        (before == 0 && !self.emergency_ping_active) || before + 1 >= self.threshold as usize
    }

    /// Starts an emergency ping: refused (false) while one is in flight, else marks one
    /// in flight (true), and the ping is to be sent.
    pub fn begin_emergency_ping(&mut self) -> (r: bool)
        ensures
            r == !old(self).emergency_ping_active,
            final(self).emergency_ping_active,
            final(self).consecutive_timeouts == old(self).consecutive_timeouts,
            final(self).last_ping_time == old(self).last_ping_time,
            final(self).threshold == old(self).threshold,
    {
        if self.emergency_ping_active {
            return false;
        }
        self.emergency_ping_active = true;
        true
    }

    /// Ends an emergency ping started at `start`: on success the ping time is `start`;
    /// on a send error the ping is no longer in flight and the error is a network error.
    pub fn finish_emergency_ping(&mut self, start: u64, send_error: Option<&str>) -> (r: Result<bool, ConnectorError>)
        ensures
            final(self).consecutive_timeouts == old(self).consecutive_timeouts,
            final(self).threshold == old(self).threshold,
            send_error is None ==> (r == Ok::<bool, ConnectorError>(true) && final(self).last_ping_time == start
                && final(self).emergency_ping_active == old(self).emergency_ping_active),
            send_error matches Some(e) ==> (r matches Err(ConnectorError::NetworkError(m)) && m@ == "紧急ping失败: "@ + e@
                && !final(self).emergency_ping_active && final(self).last_ping_time == old(self).last_ping_time),
    {
        match send_error {
            None => {
                self.last_ping_time = start;
                Ok(true)
            },
            Some(e) => {
                self.emergency_ping_active = false;
                Err(ConnectorError::NetworkError(owned("紧急ping失败: ").concat(e)))
            },
        }
    }

    /// A pong at `now`: returns the time since the last ping, and clears the timeouts and
    /// the ping in flight.
    pub fn handle_pong_at(&mut self, now: u64) -> (r: u64)
        ensures
            r == (if now >= old(self).last_ping_time { now - old(self).last_ping_time } else { 0 }),
            final(self).consecutive_timeouts == 0,
            !final(self).emergency_ping_active,
            final(self).last_ping_time == old(self).last_ping_time,
            final(self).threshold == old(self).threshold,
    {
        self.consecutive_timeouts = 0;
        self.emergency_ping_active = false;
        if now >= self.last_ping_time {
            now - self.last_ping_time
        } else {
            0
        }
    }

    /// Clears the timeouts and the ping in flight.
    pub fn reset_timeout_count(&mut self)
        ensures
            final(self).consecutive_timeouts == 0,
            !final(self).emergency_ping_active,
            final(self).last_ping_time == old(self).last_ping_time,
            final(self).threshold == old(self).threshold,
    {
        self.consecutive_timeouts = 0;
        self.emergency_ping_active = false;
    }

    /// The number of timeouts in a row.
    pub fn get_timeout_count(&self) -> (r: usize)
        ensures
            r == self.consecutive_timeouts,
    {
        self.consecutive_timeouts
    }

    /// Whether an emergency ping is in flight.
    pub fn is_emergency_ping_active(&self) -> (r: bool)
        ensures
            r == self.emergency_ping_active,
    {
        self.emergency_ping_active
    }
}

/// A quality report: mean latency in microseconds, packet loss and stability in
/// millionths, and when it was made.
#[derive(Debug, Clone, Copy, PartialEq, Eq, Structural)]
pub struct QualityReport {
    pub latency_us: u64,
    pub packet_loss_ppm: u64,
    pub stability_ppm: u64,
    pub last_updated: u64,
}

/// Latency samples in milliseconds and packet counts of a connection.
#[derive(Debug, Clone)]
pub struct ConnectionQualityMonitor {
    pub latency_history: Vec<u64>,
    pub packet_loss_count: usize,
    pub total_packets: usize,
    pub last_update: u64,
    pub max_history_size: usize,
}

/// The packet loss in millionths of the packets.
pub open spec fn spec_packet_loss_ppm(lost: int, total: int) -> int {
    if total == 0 { 0 } else { lost * 1000000 / total }
}

/// The stability score: half with fewer than two samples; else seven tenths the latency
/// stability (one less the coefficient of variation, held to one) and three tenths the
/// packet stability (one less ten times the loss, at least zero).
pub open spec fn spec_stability_ppm(lat: Seq<u64>, sd_us: int, loss_ppm: int) -> int {
    if lat.len() < 2 {
        500000
    } else {
        let mean = spec_avg_us(lat);
        let cv = if mean > 0 { let c = sd_us * 1000000 / mean; if c > 1000000 { 1000000 } else { c } } else { 0 };
        let ps = if 10 * loss_ppm > 1000000 { 0 } else { 1000000 - 10 * loss_ppm };
        (7 * (1000000 - cv) + 3 * ps) / 10
    }
}

/// The number of samples a monitor keeps: `max_history_size`, at most a million.
pub open spec fn spec_history_window(max_history_size: usize) -> nat {
    if max_history_size < 1000000 { max_history_size as nat } else { 1000000 }
}

impl ConnectionQualityMonitor {
    /// The samples are as recording keeps them: at most a million, each at most
    /// `MAX_LATENCY_MS`, losses within the packets.
    pub open spec fn wf(&self) -> bool {
        &&& self.latency_history@.len() <= 1000000
        &&& forall|i: int| 0 <= i < self.latency_history@.len() ==> #[trigger] self.latency_history@[i] < 0x100_0000_0000
        &&& self.packet_loss_count <= self.total_packets
    }

    /// A monitor at `now` keeping at most `max_history_size` samples (and never more than
    /// a million).
    pub fn new_at(max_history_size: usize, now: u64) -> (r: Self)
        ensures
            r.wf(),
            r.latency_history@.len() == 0,
            r.packet_loss_count == 0,
            r.total_packets == 0,
            r.last_update == now,
            r.max_history_size == max_history_size,
    {
        ConnectionQualityMonitor { latency_history: Vec::new(), packet_loss_count: 0, total_packets: 0, last_update: now, max_history_size }
    }

    /// Records a latency sample at `now`, counted as at most `MAX_LATENCY_MS`, dropping the
    /// oldest beyond the window.
    pub fn record_latency_at(&mut self, latency_ms: u64, now: u64)
        requires
            old(self).wf(),
        ensures
            final(self).wf(),
            final(self).latency_history@ == spec_windowed(old(self).latency_history@, spec_kept_latency(latency_ms),
                spec_history_window(old(self).max_history_size)),
            final(self).last_update == now,
            final(self).packet_loss_count == old(self).packet_loss_count,
            final(self).total_packets == old(self).total_packets,
            final(self).max_history_size == old(self).max_history_size,
    {
        let ghost h = self.latency_history@;
        let kept = if latency_ms > MAX_LATENCY_MS { MAX_LATENCY_MS } else { latency_ms };
        let window = if self.max_history_size < 1000000 { self.max_history_size } else { 1000000 };
        self.latency_history.push(kept);
        if self.latency_history.len() > window {
            self.latency_history.remove(0);
        }
        proof {
            let t = h.push(kept);
            assert(self.latency_history@ =~= spec_windowed(h, kept, window as nat));
            assert forall|i: int| 0 <= i < self.latency_history@.len() implies #[trigger] self.latency_history@[i] < 0x100_0000_0000 by {
                if t.len() > window {
                    assert(self.latency_history@[i] == t[i + 1]);
                } else {
                    assert(self.latency_history@[i] == t[i]);
                }
            }
        }
        self.last_update = now;
    }

    /// Counts a lost packet.
    pub fn record_packet_loss(&mut self)
        requires
            old(self).wf(),
            old(self).total_packets < usize::MAX,
        ensures
            final(self).wf(),
            final(self).packet_loss_count == old(self).packet_loss_count + 1,
            final(self).total_packets == old(self).total_packets + 1,
            final(self).latency_history@ == old(self).latency_history@,
            final(self).last_update == old(self).last_update,
            final(self).max_history_size == old(self).max_history_size,
    {
        self.packet_loss_count = self.packet_loss_count + 1;
        self.total_packets = self.total_packets + 1;
    }

    /// Counts a delivered packet.
    pub fn record_packet_success(&mut self)
        requires
            old(self).wf(),
            old(self).total_packets < usize::MAX,
        ensures
            final(self).wf(),
            final(self).packet_loss_count == old(self).packet_loss_count,
            final(self).total_packets == old(self).total_packets + 1,
            final(self).latency_history@ == old(self).latency_history@,
            final(self).last_update == old(self).last_update,
            final(self).max_history_size == old(self).max_history_size,
    {
        self.total_packets = self.total_packets + 1;
    }

    /// The quality report at `now`: mean latency, loss, and the stability score from the
    /// standard deviation `sd` (the whole square root of the variance).
    pub fn get_quality_report_at(&self, now: u64) -> (r: QualityReport)
        requires
            self.wf(),
        ensures
            r.latency_us == spec_avg_us(self.latency_history@),
            r.packet_loss_ppm == spec_packet_loss_ppm(self.packet_loss_count as int, self.total_packets as int),
            exists|sd: int| is_isqrt(spec_var_us2(self.latency_history@), sd)
                && r.stability_ppm == spec_stability_ppm(self.latency_history@, sd, r.packet_loss_ppm as int),
            r.last_updated == now,
    {
        let lat = &self.latency_history;
        let n = lat.len() as u128;
        let sum = sum_samples(lat);
        let sq = sum_squares(lat);
        let avg_us: u128 = if n == 0 { 0 } else { 1000 * sum / n };
        proof {
            if n > 0 {
                assert(avg_us <= 1000 * 0x100_0000_0000int) by (nonlinear_arith)
                    requires avg_us == (1000 * sum) / (n as int), sum <= n * 0x100_0000_0000int, n > 0;
            }
        }
        let var_us2 = variance_us2(lat, sum, sq);
        let sd = isqrt(var_us2);
        proof {
            assert(sd < 0x10_0000_0000_0000) by (nonlinear_arith)
                requires sd * sd <= var_us2, var_us2 < 0x100_0000_0000_0000_0000_0000_0000int, sd >= 0;
        }
        let total = self.total_packets as u128;
        let lost = self.packet_loss_count as u128;
        let loss_ppm: u128 = if total == 0 { 0 } else { lost * 1000000 / total };
        proof {
            if total > 0 {
                assert(loss_ppm <= 1000000) by (nonlinear_arith)
                    requires loss_ppm == (lost * 1000000) / (total as int), lost <= total, total > 0;
            }
        }
        let stability: u128 = if lat.len() < 2 {
            500000
        } else {
            let cv: u128 = if avg_us > 0 {
                let c = sd * 1000000 / avg_us;
                if c > 1000000 { 1000000 } else { c }
            } else {
                0
            };
            let ps: u128 = if 10 * loss_ppm > 1000000 { 0 } else { 1000000 - 10 * loss_ppm };
            (7 * (1000000 - cv) + 3 * ps) / 10
        };
        QualityReport {
            latency_us: avg_us as u64,
            packet_loss_ppm: loss_ppm as u64,
            stability_ppm: stability as u64,
            last_updated: now,
        }
    }

    /// Clears the samples and counts at `now`.
    pub fn reset_stats_at(&mut self, now: u64)
        ensures
            final(self).latency_history@.len() == 0,
            final(self).packet_loss_count == 0,
            final(self).total_packets == 0,
            final(self).last_update == now,
            final(self).max_history_size == old(self).max_history_size,
            final(self).wf(),
    {
        self.latency_history.clear();
        self.packet_loss_count = 0;
        self.total_packets = 0;
        self.last_update = now;
    }
}

/// The variance of the samples in square microseconds, from their sum and sum of squares.
fn variance_us2(lat: &Vec<u64>, sum: u128, sq: u128) -> (r: u128)
    requires
        lat@.len() <= 1000000,
        forall|i: int| 0 <= i < lat@.len() ==> #[trigger] lat@[i] < 0x100_0000_0000,
        sum == seq_sum(lat@),
        sum <= lat@.len() * 0x100_0000_0000,
        sq == crate::connectors::common::adaptive_timeout::seq_sum_sq(lat@),
        sq <= lat@.len() * 0x1_0000_0000_0000_0000_0000,
    ensures
        r == spec_var_us2(lat@),
        r < 0x100_0000_0000_0000_0000_0000_0000,
{
    let n = lat.len() as u128;
    if n == 0 {
        return 0;
    }
    proof {
        crate::connectors::common::adaptive_timeout::lemma_spread_nonnegative(lat@);
        assert(sum * sum <= n * n * 0x1_0000_0000_0000_0000_0000) by (nonlinear_arith)
            requires sum <= n * 0x100_0000_0000int, n <= 1000000int, sum >= 0;
        assert(n * sq <= n * n * 0x1_0000_0000_0000_0000_0000) by (nonlinear_arith)
            requires sq <= n * 0x1_0000_0000_0000_0000_0000int, n <= 1000000int, n >= 0;
        assert(n * n * 0x1_0000_0000_0000_0000_0000 <= 0x100_0000_0000_0000_0000_0000_0000_0000) by (nonlinear_arith)
            requires n <= 1000000int, n >= 0;
    }
    let d = n * sq - sum * sum;
    let nn = n * n;
    proof {
        assert(nn >= 1) by (nonlinear_arith)
            requires nn == n * n, n >= 1;
        assert(nn <= 1000000000000int) by (nonlinear_arith)
            requires nn == n * n, n <= 1000000int, n >= 0;
    }
    let q = d / nn;
    let rem = d % nn;
    proof {
        assert(q <= 0x1_0000_0000_0000_0000_0000) by (nonlinear_arith)
            requires q == d / nn, d <= nn * 0x1_0000_0000_0000_0000_0000int, nn >= 1, d >= 0;
        assert((1000000 * rem) / (nn as int) < 1000000) by (nonlinear_arith)
            requires rem < nn, nn >= 1, rem >= 0;
        crate::connectors::common::adaptive_timeout::lemma_scaled_div(d as int, nn as int, 1000000);
    }
    1000000 * q + 1000000 * rem / nn
}

/// A timeout that follows connection quality between bounds; the adjustment factor is in
/// thousandths.
#[derive(Debug, Clone, Copy, PartialEq, Eq, Structural)]
pub struct AdaptiveTimeoutManager {
    pub base_timeout_ms: u64,
    pub current_timeout_ms: u64,
    pub min_timeout_ms: u64,
    pub max_timeout_ms: u64,
    pub adjustment_factor_permille: u64,
}

/// The latency factor in millionths: the latency over 100 ms, held between one half and
/// three.
pub open spec fn spec_latency_factor(latency_us: u64) -> int {
    let f = latency_us * 10;
    if f < 500000 { 500000 } else if f > 3000000 { 3000000 } else { f }
}

/// The stability factor in millionths: two less the stability, held between one and two.
pub open spec fn spec_stability_factor(stability_ppm: u64) -> int {
    if stability_ppm >= 1000000 { 1000000 } else { 2000000 - stability_ppm }
}

/// The timeout that a quality report calls for: the base times both factors and the
/// adjustment factor, rounded down, at most `u64::MAX`, held between the bounds.
pub open spec fn spec_quality_timeout(m: AdaptiveTimeoutManager, q: QualityReport) -> u64 {
    let raw = m.base_timeout_ms * spec_latency_factor(q.latency_us) * spec_stability_factor(q.stability_ppm)
        * m.adjustment_factor_permille / 1_000_000_000_000_000;
    let capped = if raw > u64::MAX { u64::MAX } else { raw as u64 };
    spec_clamp(capped, m.min_timeout_ms, m.max_timeout_ms)
}

impl AdaptiveTimeoutManager {
    /// Base timeout and adjustment factor fit the fixed-point arithmetic.
    pub open spec fn wf(&self) -> bool {
        self.base_timeout_ms < 0x100_0000_0000 && self.adjustment_factor_permille < 0x100_0000_0000
    }

    /// A manager whose timeout starts at the base.
    pub fn new(base_timeout_ms: u64, min_timeout_ms: u64, max_timeout_ms: u64, adjustment_factor_permille: u64) -> (r: Self)
        ensures
            r == (AdaptiveTimeoutManager {
                base_timeout_ms,
                current_timeout_ms: base_timeout_ms,
                min_timeout_ms,
                max_timeout_ms,
                adjustment_factor_permille,
            }),
    {
        AdaptiveTimeoutManager { base_timeout_ms, current_timeout_ms: base_timeout_ms, min_timeout_ms, max_timeout_ms, adjustment_factor_permille }
    }

    /// Moves the timeout to what the quality report calls for, when that differs from it
    /// by more than 100 ms.
    pub fn adjust_timeout(&mut self, quality: &QualityReport)
        requires
            old(self).wf(),
        ensures
            ({
                let t = spec_quality_timeout(*old(self), *quality);
                let diff = if old(self).current_timeout_ms > t { old(self).current_timeout_ms - t } else { t - old(self).current_timeout_ms };
                final(self).current_timeout_ms == if diff > 100 { t } else { old(self).current_timeout_ms }
            }),
            final(self).base_timeout_ms == old(self).base_timeout_ms,
            final(self).min_timeout_ms == old(self).min_timeout_ms,
            final(self).max_timeout_ms == old(self).max_timeout_ms,
            final(self).adjustment_factor_permille == old(self).adjustment_factor_permille,
    {
        let lf: u128 = {
            let f = quality.latency_us as u128 * 10;
            if f < 500000 { 500000 } else if f > 3000000 { 3000000 } else { f }
        };
        let sf: u128 = if quality.stability_ppm >= 1000000 { 1000000 } else { 2000000 - quality.stability_ppm as u128 };
        let b = self.base_timeout_ms as u128;
        let a = self.adjustment_factor_permille as u128;
        proof {
            assert(b * lf <= 0x100_0000_0000 * 3000000) by (nonlinear_arith)
                requires b < 0x100_0000_0000int, lf <= 3000000int, b >= 0, lf >= 0;
            assert(b * lf * sf <= 0x100_0000_0000 * 3000000 * 2000000) by (nonlinear_arith)
                requires b * lf <= 0x100_0000_0000int * 3000000, sf <= 2000000int, sf >= 0, b * lf >= 0;
            assert(b * lf * sf * a <= 0x100_0000_0000 * 3000000 * 2000000 * 0x100_0000_0000) by (nonlinear_arith)
                requires b * lf * sf <= 0x100_0000_0000int * 3000000 * 2000000, a < 0x100_0000_0000int, a >= 0, b * lf * sf >= 0;
        }
        let raw: u128 = b * lf * sf * a / 1_000_000_000_000_000;
        let capped: u64 = if raw > u64::MAX as u128 { u64::MAX } else { raw as u64 };
        let lo = if capped < self.min_timeout_ms { self.min_timeout_ms } else { capped };
        let t = if lo > self.max_timeout_ms { self.max_timeout_ms } else { lo };
        let diff = if self.current_timeout_ms > t { self.current_timeout_ms - t } else { t - self.current_timeout_ms };
        if diff > 100 {
            self.current_timeout_ms = t;
        }
    }

    /// The current timeout.
    pub fn get_current_timeout(&self) -> (r: u64)
        ensures
            r == self.current_timeout_ms,
    {
        self.current_timeout_ms
    }

    /// Puts the timeout back to the base.
    pub fn reset_timeout(&mut self)
        ensures
            *final(self) == (AdaptiveTimeoutManager { current_timeout_ms: old(self).base_timeout_ms, ..*old(self) }),
    {
        self.current_timeout_ms = self.base_timeout_ms;
    }

    /// A timeout raises the timeout by a fifth, rounded down, at most to the maximum.
    pub fn handle_timeout(&mut self)
        ensures
            final(self).current_timeout_ms == (if old(self).current_timeout_ms * 12 / 10 > old(self).max_timeout_ms {
                old(self).max_timeout_ms as int
            } else {
                old(self).current_timeout_ms * 12 / 10
            }),
            final(self).base_timeout_ms == old(self).base_timeout_ms,
            final(self).min_timeout_ms == old(self).min_timeout_ms,
            final(self).max_timeout_ms == old(self).max_timeout_ms,
            final(self).adjustment_factor_permille == old(self).adjustment_factor_permille,
    {
        let raised: u128 = self.current_timeout_ms as u128 * 12 / 10;
        if raised > self.max_timeout_ms as u128 {
            self.current_timeout_ms = self.max_timeout_ms;
        } else {
            self.current_timeout_ms = raised as u64;
        }
    }

    /// Puts the timeout back to the base.
    pub fn reset(&mut self)
        ensures
            *final(self) == (AdaptiveTimeoutManager { current_timeout_ms: old(self).base_timeout_ms, ..*old(self) }),
    {
        self.reset_timeout();
    }
}

/// After a timeout the timeout never exceeds the maximum, unless it already did.
pub proof fn lemma_handle_timeout_bounded(current: u64, max: u64)
    requires
        current <= max,
    ensures
        (if current * 12 / 10 > max { max as int } else { current * 12 / 10 }) <= max,
{
}

} // verus!
