//! Adaptive timeouts: latency and packet-loss samples are kept in bounded windows, a
//! network quality score is computed from them, and the timeout follows the score between
//! its bounds. A timeout raises it at once.
//!
//! Durations are milliseconds. Statistics are fixed point, each step rounded down:
//! latencies in microseconds, scores and loss rates in millionths, the adjustment factor
//! in thousandths. A window keeps at most a million samples, a latency sample counts as
//! at most `MAX_LATENCY_MS` (about 34 years) and a loss sample as at most one, so the
//! statistics of any window that the recording functions build can be computed.
use std::collections::VecDeque;
use vstd::prelude::*;
use crate::clock::now_millis;

verus! {

/// Settings of the timeout manager.
#[derive(Debug, Clone, Copy, PartialEq, Eq, Structural)]
pub struct AdaptiveTimeoutConfig {
    pub base_timeout_ms: u64,
    pub min_timeout_ms: u64,
    pub max_timeout_ms: u64,
    pub sample_window_size: usize,
    /// By how much, in thousandths, a timeout raises the current timeout.
    pub adjustment_factor_permille: u64,
    pub enabled: bool,
    pub evaluation_interval_ms: u64,
}

/// The default settings.
pub open spec fn spec_default_timeout_config() -> AdaptiveTimeoutConfig {
    AdaptiveTimeoutConfig {
        base_timeout_ms: 5000,
        min_timeout_ms: 1000,
        max_timeout_ms: 30000,
        sample_window_size: 50,
        adjustment_factor_permille: 200,
        enabled: true,
        evaluation_interval_ms: 10000,
    }
}

impl Default for AdaptiveTimeoutConfig {
    fn default() -> (r: Self)
        ensures
            r == spec_default_timeout_config(),
    {
        AdaptiveTimeoutConfig {
            base_timeout_ms: 5000,
            min_timeout_ms: 1000,
            max_timeout_ms: 30000,
            sample_window_size: 50,
            adjustment_factor_permille: 200,
            enabled: true,
            evaluation_interval_ms: 10000,
        }
    }
}

/// One million: the unit of scores and loss rates.
pub const MILLION: u64 = 1000000;

/// The state of the timeout manager.
#[derive(Debug, Clone)]
pub struct AdaptiveTimeoutState {
    pub current_timeout_ms: u64,
    /// Latency samples in milliseconds, oldest first.
    pub latency_history: VecDeque<u64>,
    /// Packet-loss samples in millionths, oldest first.
    pub packet_loss_history: VecDeque<u64>,
    pub last_evaluation: Option<u64>,
    /// The last quality score, in millionths.
    pub network_quality_score: u64,
    pub consecutive_timeouts: u32,
    pub consecutive_successes: u32,
}

/// Network quality: the mean latency and its standard deviation in microseconds, the mean
/// loss rate and the score in millionths, and the timeout they recommend.
#[derive(Debug, Clone, Copy, PartialEq, Eq, Structural)]
pub struct NetworkQualityMetrics {
    pub avg_latency_us: u64,
    pub latency_std_dev_us: u64,
    pub packet_loss_ppm: u64,
    pub quality_score_ppm: u64,
    pub recommended_timeout_ms: u64,
}

/// What an evaluation did to the timeout; each carries the timeout after it.
#[derive(Debug, Clone, Copy, PartialEq, Eq, Structural)]
pub enum TimeoutAdjustmentResult {
    Increased(u64),
    Decreased(u64),
    Unchanged(u64),
    MaxReached(u64),
    MinReached(u64),
}

/// A summary of the manager.
#[derive(Debug, Clone, Copy, PartialEq, Eq, Structural)]
pub struct AdaptiveTimeoutStatus {
    pub current_timeout_ms: u64,
    pub network_quality_score: u64,
    pub consecutive_timeouts: u32,
    pub consecutive_successes: u32,
    pub sample_count: usize,
    pub metrics: NetworkQualityMetrics,
    pub config: AdaptiveTimeoutConfig,
}

/// The sum of a list of samples.
pub open spec fn seq_sum(s: Seq<u64>) -> int
    decreases s.len(),
{
    if s.len() == 0 { 0 } else { seq_sum(s.drop_last()) + s.last() }
}

/// The sum of the squares of a list of samples.
pub open spec fn seq_sum_sq(s: Seq<u64>) -> int
    decreases s.len(),
{
    if s.len() == 0 { 0 } else { seq_sum_sq(s.drop_last()) + s.last() * s.last() }
}

/// The mean latency in microseconds.
pub open spec fn spec_avg_us(s: Seq<u64>) -> int {
    if s.len() == 0 { 0 } else { 1000 * seq_sum(s) / (s.len() as int) }
}

/// The variance of the latencies in square microseconds: n times the sum of squares less
/// the square of the sum, over n squared.
pub open spec fn spec_var_us2(s: Seq<u64>) -> int {
    let n = s.len() as int;
    if n == 0 {
        0
    } else {
        1000000 * (n * seq_sum_sq(s) - seq_sum(s) * seq_sum(s)) / (n * n)
    }
}

/// Whether `r` is the whole square root of `v`.
pub open spec fn is_isqrt(v: int, r: int) -> bool {
    r >= 0 && r * r <= v && v < (r + 1) * (r + 1)
}

/// The mean packet loss in millionths.
pub open spec fn spec_loss_ppm(p: Seq<u64>) -> int {
    if p.len() == 0 { 0 } else { seq_sum(p) / (p.len() as int) }
}

/// The latency score: full for no latency, else 100 ms over the mean plus 100 ms.
pub open spec fn spec_latency_score(avg_us: int, has_latency: bool) -> int {
    if !has_latency { 1000000 } else { (100000000000int) / (avg_us + 100000) }
}

/// The stability score: full for no spread, else 50 ms over the deviation plus 50 ms.
pub open spec fn spec_stability_score(sd_us: int) -> int {
    if sd_us == 0 { 1000000 } else { (50000000000int) / (sd_us + 50000) }
}

/// The quality score: four tenths latency, three tenths stability, three tenths the
/// share of packets not lost.
pub open spec fn spec_quality(latency_score: int, stability_score: int, loss_ppm: int) -> int {
    (4 * latency_score + 3 * stability_score + 3 * (1000000 - loss_ppm)) / 10
}

/// The timeout recommended for a quality score: eight tenths of the base above 0.8, the
/// base above 0.6, one and a half times it above 0.4, twice it otherwise; held between
/// the bounds.
pub open spec fn spec_recommended(c: AdaptiveTimeoutConfig, quality: int) -> u64 {
    let tenths: int = if quality > 800000 { 8 } else if quality > 600000 { 10 } else if quality > 400000 { 15 } else { 20 };
    let raw = c.base_timeout_ms * tenths / 10;
    let low = if raw < c.min_timeout_ms { c.min_timeout_ms as int } else { raw };
    (if low > c.max_timeout_ms { c.max_timeout_ms as int } else { low }) as u64
}

/// The metrics of a pair of windows, given the whole square root `sd` of the variance.
pub open spec fn spec_metrics(c: AdaptiveTimeoutConfig, lat: Seq<u64>, loss: Seq<u64>, sd: int) -> NetworkQualityMetrics {
    let avg = spec_avg_us(lat);
    let lscore = spec_latency_score(avg, seq_sum(lat) > 0);
    let q = spec_quality(lscore, spec_stability_score(sd), spec_loss_ppm(loss));
    NetworkQualityMetrics {
        avg_latency_us: avg as u64,
        latency_std_dev_us: sd as u64,
        packet_loss_ppm: spec_loss_ppm(loss) as u64,
        quality_score_ppm: q as u64,
        recommended_timeout_ms: spec_recommended(c, q),
    }
}

/// The largest latency a sample counts as, in milliseconds.
pub const MAX_LATENCY_MS: u64 = 0xFF_FFFF_FFFF;

/// The most samples a window keeps.
pub const MAX_WINDOW: usize = 1000000;

/// Windows as the recording functions keep them: at most a million samples, each latency
/// at most `MAX_LATENCY_MS` and each loss at most one.
pub open spec fn windows_in_range(lat: Seq<u64>, loss: Seq<u64>) -> bool {
    &&& lat.len() <= 1000000
    &&& loss.len() <= 1000000
    &&& forall|i: int| 0 <= i < lat.len() ==> #[trigger] lat[i] < 0x100_0000_0000
    &&& forall|i: int| 0 <= i < loss.len() ==> #[trigger] loss[i] <= 1000000
}

/// The number of samples a window keeps under the settings `c`.
pub open spec fn spec_window(c: AdaptiveTimeoutConfig) -> nat {
    if c.sample_window_size < 1000000 { c.sample_window_size as nat } else { 1000000 }
}

/// A latency sample as it is kept.
pub open spec fn spec_kept_latency(latency_ms: u64) -> u64 {
    if latency_ms > MAX_LATENCY_MS { MAX_LATENCY_MS } else { latency_ms }
}

/// `s` with `x` appended and, when it has more than `window` samples, its oldest dropped.
pub open spec fn spec_windowed(s: Seq<u64>, x: u64, window: nat) -> Seq<u64> {
    let t = s.push(x);
    if t.len() > window { t.drop_first() } else { t }
}

/// `v` held between `lo` and `hi`: first raised to `lo`, then lowered to `hi`.
pub open spec fn spec_clamp(v: u64, lo: u64, hi: u64) -> u64 {
    let a = if v < lo { lo } else { v };
    if a > hi { hi } else { a }
}

/// What an evaluation does with a recommended timeout `rec` when the timeout is `old`.
pub open spec fn spec_adjustment(c: AdaptiveTimeoutConfig, old: u64, rec: u64) -> (u64, TimeoutAdjustmentResult) {
    if rec > old {
        if rec >= c.max_timeout_ms {
            (c.max_timeout_ms, TimeoutAdjustmentResult::MaxReached(c.max_timeout_ms))
        } else {
            (rec, TimeoutAdjustmentResult::Increased(rec))
        }
    } else if rec < old {
        if rec <= c.min_timeout_ms {
            (c.min_timeout_ms, TimeoutAdjustmentResult::MinReached(c.min_timeout_ms))
        } else {
            (rec, TimeoutAdjustmentResult::Decreased(rec))
        }
    } else {
        (old, TimeoutAdjustmentResult::Unchanged(old))
    }
}

/// The whole square root of `v`.
pub fn isqrt(v: u128) -> (r: u128)
    requires
        v < 0x100_0000_0000_0000_0000_0000_0000,
    ensures
        is_isqrt(v as int, r as int),
{
    let mut lo: u128 = 0;
    let mut hi: u128 = 0x10_0000_0000_0000;
    assert(hi * hi == 0x100_0000_0000_0000_0000_0000_0000) by (nonlinear_arith)
        requires hi == 0x10_0000_0000_0000u128;
    while lo + 1 < hi
        invariant
            lo < hi <= 0x10_0000_0000_0000,
            lo * lo <= v,
            v < hi * hi,
        decreases hi - lo,
    {
        let mid = lo + (hi - lo) / 2;
        assert(mid * mid < 0x100_0000_0000_0000_0000_0000_0000) by (nonlinear_arith)
            requires mid < 0x10_0000_0000_0000u128;
        if mid * mid <= v {
            lo = mid;
        } else {
            hi = mid;
        }
    }
    lo
}

/// The sum of the samples.
pub fn sum_samples(s: &Vec<u64>) -> (r: u128)
    requires
        s@.len() <= 1000000,
        forall|i: int| 0 <= i < s@.len() ==> #[trigger] s@[i] < 0x100_0000_0000,
    ensures
        r == seq_sum(s@),
        r <= s@.len() * 0x100_0000_0000,
{
    let n = s.len();
    let mut acc: u128 = 0;
    let mut i: usize = 0;
    while i < n
        invariant
            n == s@.len(),
            n <= 1000000,
            i <= n,
            forall|j: int| 0 <= j < s@.len() ==> #[trigger] s@[j] < 0x100_0000_0000,
            acc == seq_sum(s@.take(i as int)),
            acc <= i * 0x100_0000_0000,
        decreases n - i,
    {
        proof {
            assert(s@.take(i + 1).drop_last() =~= s@.take(i as int));
        }
        acc = acc + s[i] as u128;
        i = i + 1;
    }
    assert(s@.take(n as int) =~= s@);
    acc
}

/// The sum of the squares of the samples.
pub fn sum_squares(s: &Vec<u64>) -> (r: u128)
    requires
        s@.len() <= 1000000,
        forall|i: int| 0 <= i < s@.len() ==> #[trigger] s@[i] < 0x100_0000_0000,
    ensures
        r == seq_sum_sq(s@),
        r <= s@.len() * 0x1_0000_0000_0000_0000_0000,
{
    let n = s.len();
    let mut acc: u128 = 0;
    let mut i: usize = 0;
    while i < n
        invariant
            n == s@.len(),
            n <= 1000000,
            i <= n,
            forall|j: int| 0 <= j < s@.len() ==> #[trigger] s@[j] < 0x100_0000_0000,
            acc == seq_sum_sq(s@.take(i as int)),
            acc <= i * 0x1_0000_0000_0000_0000_0000,
        decreases n - i,
    {
        proof {
            assert(s@.take(i + 1).drop_last() =~= s@.take(i as int));
        }
        let x = s[i] as u128;
        assert(x * x < 0x1_0000_0000_0000_0000_0000) by (nonlinear_arith)
            requires x < 0x100_0000_0000u128;
        acc = acc + x * x;
        i = i + 1;
    }
    assert(s@.take(n as int) =~= s@);
    acc
}

/// Appends `x` to a window of `window` samples, dropping the oldest one if it overflows.
pub fn push_windowed(v: &mut VecDeque<u64>, x: u64, window: usize)
    ensures
        final(v)@ == spec_windowed(old(v)@, x, window as nat),
{
    let ghost t = old(v)@.push(x);
    v.push_back(x);
    if v.len() > window {
        let _ = v.pop_front();
        assert(v@ =~= t.drop_first());
    }
}

/// The sum of the samples of a window.
pub fn window_sum(s: &VecDeque<u64>) -> (r: u128)
    requires
        s@.len() <= 1000000,
        forall|i: int| 0 <= i < s@.len() ==> #[trigger] s@[i] < 0x100_0000_0000,
    ensures
        r == seq_sum(s@),
        r <= s@.len() * 0x100_0000_0000,
{
    let n = s.len();
    let mut acc: u128 = 0;
    let mut i: usize = 0;
    while i < n
        invariant
            n == s@.len(),
            n <= 1000000,
            i <= n,
            forall|j: int| 0 <= j < s@.len() ==> #[trigger] s@[j] < 0x100_0000_0000,
            acc == seq_sum(s@.take(i as int)),
            acc <= i * 0x100_0000_0000,
        decreases n - i,
    {
        proof {
            assert(s@.take(i + 1).drop_last() =~= s@.take(i as int));
        }
        acc = acc + s[i] as u128;
        i = i + 1;
    }
    assert(s@.take(n as int) =~= s@);
    acc
}

/// The sum of the squares of the samples of a window.
pub fn window_sum_squares(s: &VecDeque<u64>) -> (r: u128)
    requires
        s@.len() <= 1000000,
        forall|i: int| 0 <= i < s@.len() ==> #[trigger] s@[i] < 0x100_0000_0000,
    ensures
        r == seq_sum_sq(s@),
        r <= s@.len() * 0x1_0000_0000_0000_0000_0000,
{
    let n = s.len();
    let mut acc: u128 = 0;
    let mut i: usize = 0;
    while i < n
        invariant
            n == s@.len(),
            n <= 1000000,
            i <= n,
            forall|j: int| 0 <= j < s@.len() ==> #[trigger] s@[j] < 0x100_0000_0000,
            acc == seq_sum_sq(s@.take(i as int)),
            acc <= i * 0x1_0000_0000_0000_0000_0000,
        decreases n - i,
    {
        proof {
            assert(s@.take(i + 1).drop_last() =~= s@.take(i as int));
        }
        let x = s[i] as u128;
        assert(x * x < 0x1_0000_0000_0000_0000_0000) by (nonlinear_arith)
            requires x < 0x100_0000_0000u128;
        acc = acc + x * x;
        i = i + 1;
    }
    assert(s@.take(n as int) =~= s@);
    acc
}

/// The manager of an adaptive timeout.
#[derive(Debug)]
pub struct AdaptiveTimeoutManager {
    pub config: AdaptiveTimeoutConfig,
    pub state: AdaptiveTimeoutState,
}

/// What an evaluation at `now` does to a manager `a`, giving `b` and `r`: when adaptation
/// is on and the evaluation interval has passed since the last one (or there was none),
/// the timeout moves to the recommended one held between its bounds, the quality score is
/// kept and `now` becomes the time of the last evaluation; otherwise nothing changes and
/// there is no result. The histories, settings and streaks never change.
pub open spec fn spec_evaluation(
    a: AdaptiveTimeoutManager,
    b: AdaptiveTimeoutManager,
    r: Option<TimeoutAdjustmentResult>,
    now: u64,
) -> bool {
    &&& b.config == a.config
    &&& b.state.latency_history@ == a.state.latency_history@
    &&& b.state.packet_loss_history@ == a.state.packet_loss_history@
    &&& b.state.consecutive_timeouts == a.state.consecutive_timeouts
    &&& b.state.consecutive_successes == a.state.consecutive_successes
    &&& ({
        let due = a.config.enabled && match a.state.last_evaluation {
            Some(t) => (if now >= t { now - t } else { 0 }) >= a.config.evaluation_interval_ms,
            None => true,
        };
        if !due {
            &&& r is None
            &&& b.state@ == a.state@
        } else {
            exists|sd: int| #![trigger spec_metrics(a.config, a.state.latency_history@, a.state.packet_loss_history@, sd)]
                is_isqrt(spec_var_us2(a.state.latency_history@), sd) && {
                let m = spec_metrics(a.config, a.state.latency_history@, a.state.packet_loss_history@, sd);
                let adj = spec_adjustment(a.config, a.state.current_timeout_ms, m.recommended_timeout_ms);
                &&& r == Some(adj.1)
                &&& b.state.current_timeout_ms == adj.0
                &&& b.state.network_quality_score == m.quality_score_ppm
                &&& b.state.last_evaluation == Some(now)
            }
        }
    })
}

impl AdaptiveTimeoutManager {
    /// The windows are as the recording functions keep them.
    pub open spec fn wf(&self) -> bool {
        windows_in_range(self.state.latency_history@, self.state.packet_loss_history@)
    }

    /// The fresh state: the base timeout, no samples, full quality.
    pub open spec fn is_fresh(&self) -> bool {
        &&& self.state.current_timeout_ms == self.config.base_timeout_ms
        &&& self.state.latency_history@.len() == 0
        &&& self.state.packet_loss_history@.len() == 0
        &&& self.state.last_evaluation is None
        &&& self.state.network_quality_score == MILLION
        &&& self.state.consecutive_timeouts == 0
        &&& self.state.consecutive_successes == 0
    }

    /// A manager that starts at the base timeout.
    pub fn new(config: AdaptiveTimeoutConfig) -> (r: Self)
        ensures
            r.config == config,
            r.is_fresh(),
            r.wf(),
    {
        AdaptiveTimeoutManager {
            config,
            state: AdaptiveTimeoutState {
                current_timeout_ms: config.base_timeout_ms,
                latency_history: VecDeque::new(),
                packet_loss_history: VecDeque::new(),
                last_evaluation: None,
                network_quality_score: MILLION,
                consecutive_timeouts: 0,
                consecutive_successes: 0,
            },
        }
    }

    /// A manager with the default settings.
    pub fn with_default_config() -> (r: Self)
        ensures
            r.config == spec_default_timeout_config(),
            r.is_fresh(),
            r.wf(),
    {
        Self::new(AdaptiveTimeoutConfig::default())
    }

    /// The current timeout.
    pub fn get_current_timeout(&self) -> (r: u64)
        ensures
            r == self.state.current_timeout_ms,
    {
        self.state.current_timeout_ms
    }

    /// Records a latency sample, counted as at most `MAX_LATENCY_MS`: it joins the window
    /// and counts as a success, ending any run of timeouts. Nothing happens while
    /// adaptation is off.
    pub fn record_latency(&mut self, latency_ms: u64)
        requires
            old(self).state.consecutive_successes < u32::MAX,
        ensures
            final(self).config == old(self).config,
            old(self).wf() ==> final(self).wf(),
            !old(self).config.enabled ==> final(self).state@ == old(self).state@,
            old(self).config.enabled ==> {
                &&& final(self).state.latency_history@ == spec_windowed(
                    old(self).state.latency_history@, spec_kept_latency(latency_ms), spec_window(old(self).config))
                &&& final(self).state.consecutive_successes == old(self).state.consecutive_successes + 1
                &&& final(self).state.consecutive_timeouts == 0
                &&& final(self).state.current_timeout_ms == old(self).state.current_timeout_ms
                &&& final(self).state.packet_loss_history@ == old(self).state.packet_loss_history@
                &&& final(self).state.last_evaluation == old(self).state.last_evaluation
                &&& final(self).state.network_quality_score == old(self).state.network_quality_score
            },
    {
        if !self.config.enabled {
            return;
        }
        let kept = if latency_ms > MAX_LATENCY_MS { MAX_LATENCY_MS } else { latency_ms };
        let window = if self.config.sample_window_size < MAX_WINDOW { self.config.sample_window_size } else { MAX_WINDOW };
        let ghost before = self.state.latency_history@;
        push_windowed(&mut self.state.latency_history, kept, window);
        proof {
            if old(self).wf() {
                lemma_windowed_in_range(before, kept, window as nat, 0x100_0000_0000);
            }
        }
        self.state.consecutive_successes = self.state.consecutive_successes + 1;
        self.state.consecutive_timeouts = 0;
    }

    /// Records a timeout: it ends any run of successes and raises the timeout at once by
    /// the adjustment factor, up to the largest timeout.
    pub fn record_timeout(&mut self)
        requires
            old(self).state.consecutive_timeouts < u32::MAX,
        ensures
            final(self).config == old(self).config,
            old(self).wf() ==> final(self).wf(),
            !old(self).config.enabled ==> final(self).state@ == old(self).state@,
            old(self).config.enabled ==> {
                let t = old(self).state.current_timeout_ms;
                let raised = t + t * old(self).config.adjustment_factor_permille / 1000;
                &&& final(self).state.current_timeout_ms == if raised < old(self).config.max_timeout_ms {
                    raised
                } else {
                    old(self).config.max_timeout_ms as int
                }
                &&& final(self).state.consecutive_timeouts == old(self).state.consecutive_timeouts + 1
                &&& final(self).state.consecutive_successes == 0
                &&& final(self).state.latency_history@ == old(self).state.latency_history@
                &&& final(self).state.packet_loss_history@ == old(self).state.packet_loss_history@
                &&& final(self).state.last_evaluation == old(self).state.last_evaluation
                &&& final(self).state.network_quality_score == old(self).state.network_quality_score
            },
    {
        if !self.config.enabled {
            return;
        }
        self.state.consecutive_timeouts = self.state.consecutive_timeouts + 1;
        self.state.consecutive_successes = 0;
        let t = self.state.current_timeout_ms;
        let f = self.config.adjustment_factor_permille;
        assert((t as int) * (f as int) <= 0xFFFF_FFFF_FFFF_FFFF * 0xFFFF_FFFF_FFFF_FFFF) by (nonlinear_arith);
        let adjustment: u128 = (t as u128) * (f as u128) / 1000;
        assert(adjustment <= 0xFFFF_FFFF_FFFF_FFFF * 0xFFFF_FFFF_FFFF_FFFF / 1000) by (nonlinear_arith)
            requires adjustment == (t as int) * (f as int) / 1000,
                (t as int) * (f as int) <= 0xFFFF_FFFF_FFFF_FFFF * 0xFFFF_FFFF_FFFF_FFFF;
        let raised: u128 = t as u128 + adjustment;
        self.state.current_timeout_ms = if raised < self.config.max_timeout_ms as u128 { raised as u64 } else { self.config.max_timeout_ms };
    }

    /// Records a packet-loss sample in millionths, held to at most one.
    pub fn record_packet_loss(&mut self, loss_ppm: u64)
        ensures
            final(self).config == old(self).config,
            old(self).wf() ==> final(self).wf(),
            !old(self).config.enabled ==> final(self).state@ == old(self).state@,
            old(self).config.enabled ==> {
                &&& final(self).state.packet_loss_history@ == spec_windowed(
                    old(self).state.packet_loss_history@,
                    if loss_ppm > MILLION { MILLION } else { loss_ppm },
                    spec_window(old(self).config),
                )
                &&& final(self).state.latency_history@ == old(self).state.latency_history@
                &&& final(self).state.current_timeout_ms == old(self).state.current_timeout_ms
                &&& final(self).state.consecutive_timeouts == old(self).state.consecutive_timeouts
                &&& final(self).state.consecutive_successes == old(self).state.consecutive_successes
                &&& final(self).state.last_evaluation == old(self).state.last_evaluation
                &&& final(self).state.network_quality_score == old(self).state.network_quality_score
            },
    {
        if !self.config.enabled {
            return;
        }
        let clamped = if loss_ppm > MILLION { MILLION } else { loss_ppm };
        let window = if self.config.sample_window_size < MAX_WINDOW { self.config.sample_window_size } else { MAX_WINDOW };
        let ghost before = self.state.packet_loss_history@;
        push_windowed(&mut self.state.packet_loss_history, clamped, window);
        proof {
            if old(self).wf() {
                assert forall|i: int| 0 <= i < before.len() implies #[trigger] before[i] < 1000001 by {
                    assert(before[i] <= 1000000);
                }
                lemma_windowed_in_range(before, clamped, window as nat, 1000001);
            }
        }
    }

    /// The network quality of the current windows.
    pub fn calculate_network_metrics(&self) -> (r: NetworkQualityMetrics)
        requires
            self.wf(),
        ensures
            is_isqrt(spec_var_us2(self.state.latency_history@), r.latency_std_dev_us as int),
            r == spec_metrics(self.config, self.state.latency_history@, self.state.packet_loss_history@, r.latency_std_dev_us as int),
    {
        let lat = &self.state.latency_history;
        let loss = &self.state.packet_loss_history;
        let n = lat.len() as u128;
        let sum = window_sum(lat);
        let sq = window_sum_squares(lat);
        let ghost s = lat@;
        let avg_us: u128 = if n == 0 { 0 } else { 1000 * sum / n };
        let var_us2: u128 = if n == 0 {
            0
        } else {
            proof {
                lemma_spread_nonnegative(s);
                assert(sum * sum <= n * n * 0x1_0000_0000_0000_0000_0000) by (nonlinear_arith)
                    requires sum <= n * 0x100_0000_0000int, n <= 1000000int, sum >= 0;
                assert(n * sq <= n * n * 0x1_0000_0000_0000_0000_0000) by (nonlinear_arith)
                    requires sq <= n * 0x1_0000_0000_0000_0000_0000int, n <= 1000000int, n >= 0;
                assert(n * n * 0x1_0000_0000_0000_0000_0000 <= 0x100_0000_0000_0000_0000_0000_0000_0000) by (nonlinear_arith)
                    requires n <= 1000000int, n >= 0;
            }
            let d = n * sq - sum * sum;
            let nn = n * n;
            proof {
                assert(nn >= 1) by (nonlinear_arith)
                    requires nn == n * n, n >= 1;
                assert(nn <= 1000000000000int) by (nonlinear_arith)
                    requires nn == n * n, n <= 1000000int, n >= 0;
            }
            let q = d / nn;
            let rem = d % nn;
            proof {
                assert(q <= 0x1_0000_0000_0000_0000_0000) by (nonlinear_arith)
                    requires q == d / nn, d <= nn * 0x1_0000_0000_0000_0000_0000int, nn >= 1, d >= 0;
                assert((1000000 * rem) / (nn as int) < 1000000) by (nonlinear_arith)
                    requires rem < nn, nn >= 1, rem >= 0;
                lemma_scaled_div(d as int, nn as int, 1000000);
            }
            1000000 * q + 1000000 * rem / nn
        };
        proof {
            assert(var_us2 < 0x100_0000_0000_0000_0000_0000_0000);
        }
        let sd = isqrt(var_us2);
        proof {
            assert(sd < 0x10_0000_0000_0000) by (nonlinear_arith)
                requires sd * sd <= var_us2, var_us2 < 0x100_0000_0000_0000_0000_0000_0000int, sd >= 0;
        }
        let m = loss.len() as u128;
        let loss_sum = sum_samples_bounded(loss);
        let loss_ppm: u128 = if m == 0 { 0 } else { loss_sum / m };
        proof {
            if m > 0 {
                assert(loss_ppm <= 1000000) by (nonlinear_arith)
                    requires loss_ppm == loss_sum / m, loss_sum <= m * 1000000, m >= 1;
            }
        }
        let lscore: u128 = if sum == 0 { 1000000 } else { 100000000000 / (avg_us + 100000) };
        let sscore: u128 = if sd == 0 { 1000000 } else { 50000000000 / (sd + 50000) };
        proof {
            if sum != 0 {
                assert(lscore <= 1000000) by (nonlinear_arith)
                    requires lscore == 100000000000int / (avg_us + 100000), avg_us >= 0;
            }
            if sd != 0 {
                assert(sscore <= 1000000) by (nonlinear_arith)
                    requires sscore == 50000000000int / (sd + 50000), sd >= 0;
            }
        }
        let quality: u128 = (4 * lscore + 3 * sscore + 3 * (1000000 - loss_ppm)) / 10;
        let tenths: u64 = if quality > 800000 { 8 } else if quality > 600000 { 10 } else if quality > 400000 { 15 } else { 20 };
        assert((self.config.base_timeout_ms as int) * (tenths as int) <= 0xFFFF_FFFF_FFFF_FFFF * 20) by (nonlinear_arith)
            requires tenths <= 20;
        let raw: u128 = (self.config.base_timeout_ms as u128) * (tenths as u128) / 10;
        let low: u128 = if raw < self.config.min_timeout_ms as u128 { self.config.min_timeout_ms as u128 } else { raw };
        let recommended: u64 = if low > self.config.max_timeout_ms as u128 { self.config.max_timeout_ms } else { low as u64 };
        proof {
            if n > 0 {
                assert(avg_us <= 1000 * 0x100_0000_0000int) by (nonlinear_arith)
                    requires avg_us == (1000 * sum) / (n as int), sum <= n * 0x100_0000_0000int, n > 0;
            }
        }
        NetworkQualityMetrics {
            avg_latency_us: avg_us as u64,
            latency_std_dev_us: sd as u64,
            packet_loss_ppm: loss_ppm as u64,
            quality_score_ppm: quality as u64,
            recommended_timeout_ms: recommended,
        }
    }

    /// The network quality of the current windows.
    pub fn get_network_metrics(&self) -> (r: NetworkQualityMetrics)
        requires
            self.wf(),
        ensures
            is_isqrt(spec_var_us2(self.state.latency_history@), r.latency_std_dev_us as int),
            r == spec_metrics(self.config, self.state.latency_history@, self.state.packet_loss_history@, r.latency_std_dev_us as int),
    {
        self.calculate_network_metrics()
    }

    /// Evaluates the network at `now`, unless adaptation is off or the last evaluation is
    /// more recent than the evaluation interval: the quality score is kept and the timeout
    /// moves to the recommended one, held between its bounds.
    pub fn evaluate_and_adjust_at(&mut self, now: u64) -> (r: Option<TimeoutAdjustmentResult>)
        requires
            old(self).wf(),
        ensures
            final(self).config == old(self).config,
            final(self).state.latency_history@ == old(self).state.latency_history@,
            final(self).state.packet_loss_history@ == old(self).state.packet_loss_history@,
            final(self).state.consecutive_timeouts == old(self).state.consecutive_timeouts,
            final(self).state.consecutive_successes == old(self).state.consecutive_successes,
            ({
                let due = old(self).config.enabled && match old(self).state.last_evaluation {
                    Some(t) => (if now >= t { now - t } else { 0 }) >= old(self).config.evaluation_interval_ms,
                    None => true,
                };
                if !due {
                    &&& r is None
                    &&& final(self).state@ == old(self).state@
                } else {
                    exists|sd: int| #![trigger spec_metrics(old(self).config, old(self).state.latency_history@, old(self).state.packet_loss_history@, sd)]
                        is_isqrt(spec_var_us2(old(self).state.latency_history@), sd) && {
                        let m = spec_metrics(old(self).config, old(self).state.latency_history@, old(self).state.packet_loss_history@, sd);
                        let adj = spec_adjustment(old(self).config, old(self).state.current_timeout_ms, m.recommended_timeout_ms);
                        &&& r == Some(adj.1)
                        &&& final(self).state.current_timeout_ms == adj.0
                        &&& final(self).state.network_quality_score == m.quality_score_ppm
                        &&& final(self).state.last_evaluation == Some(now)
                    }
                }
            }),
    {
        if !self.config.enabled {
            return None;
        }
        match self.state.last_evaluation {
            Some(last) => {
                let elapsed = if now >= last { now - last } else { 0 };
                if elapsed < self.config.evaluation_interval_ms {
                    return None;
                }
            },
            None => {},
        }
        self.state.last_evaluation = Some(now);
        let metrics = self.calculate_network_metrics();
        self.state.network_quality_score = metrics.quality_score_ppm;
        let (timeout, result) = adjust_timeout(&self.config, self.state.current_timeout_ms, metrics.recommended_timeout_ms);
        self.state.current_timeout_ms = timeout;
        Some(result)
    }

    /// Evaluates the network now, by the system clock.
    pub fn evaluate_and_adjust(&mut self) -> (r: Option<TimeoutAdjustmentResult>)
        requires
            old(self).wf(),
        ensures
            !old(self).config.enabled ==> r is None,
            final(self).config == old(self).config,
            exists|now: u64| #[trigger] spec_evaluation(*old(self), *final(self), r, now),
    {
        let now = now_millis();
        let ghost a = *self;
        let r = self.evaluate_and_adjust_at(now);
        assert(spec_evaluation(a, *self, r, now));
        r
    }

    /// Back to the fresh state at the base timeout.
    pub fn reset(&mut self)
        ensures
            final(self).config == old(self).config,
            final(self).is_fresh(),
    {
        self.state = AdaptiveTimeoutState {
            current_timeout_ms: self.config.base_timeout_ms,
            latency_history: VecDeque::new(),
            packet_loss_history: VecDeque::new(),
            last_evaluation: None,
            network_quality_score: MILLION,
            consecutive_timeouts: 0,
            consecutive_successes: 0,
        };
    }

    /// Sets the timeout, held between its bounds.
    pub fn set_timeout(&mut self, timeout_ms: u64)
        ensures
            final(self).config == old(self).config,
            final(self).state@ == (AdaptiveTimeoutStateView {
                current_timeout_ms: spec_clamp(timeout_ms, old(self).config.min_timeout_ms, old(self).config.max_timeout_ms),
                ..old(self).state@
            }),
    {
        self.state.current_timeout_ms = clamp_timeout(timeout_ms, self.config.min_timeout_ms, self.config.max_timeout_ms);
    }

    /// A summary of the state with the current metrics.
    pub fn get_status_summary(&self) -> (r: AdaptiveTimeoutStatus)
        requires
            self.wf(),
        ensures
            r.current_timeout_ms == self.state.current_timeout_ms,
            r.network_quality_score == self.state.network_quality_score,
            r.consecutive_timeouts == self.state.consecutive_timeouts,
            r.consecutive_successes == self.state.consecutive_successes,
            r.sample_count == self.state.latency_history@.len(),
            is_isqrt(spec_var_us2(self.state.latency_history@), r.metrics.latency_std_dev_us as int),
            r.metrics == spec_metrics(self.config, self.state.latency_history@, self.state.packet_loss_history@, r.metrics.latency_std_dev_us as int),
            r.config == self.config,
    {
        AdaptiveTimeoutStatus {
            current_timeout_ms: self.state.current_timeout_ms,
            network_quality_score: self.state.network_quality_score,
            consecutive_timeouts: self.state.consecutive_timeouts,
            consecutive_successes: self.state.consecutive_successes,
            sample_count: self.state.latency_history.len(),
            metrics: self.calculate_network_metrics(),
            config: self.config,
        }
    }

    /// Replaces the settings; the current timeout is held between the new bounds.
    pub fn update_config(&mut self, new_config: AdaptiveTimeoutConfig)
        ensures
            final(self).config == new_config,
            final(self).state@ == (AdaptiveTimeoutStateView {
                current_timeout_ms: spec_clamp(old(self).state.current_timeout_ms, new_config.min_timeout_ms, new_config.max_timeout_ms),
                ..old(self).state@
            }),
    {
        self.config = new_config;
        self.state.current_timeout_ms = clamp_timeout(self.state.current_timeout_ms, self.config.min_timeout_ms, self.config.max_timeout_ms);
    }
}

impl View for AdaptiveTimeoutState {
    type V = AdaptiveTimeoutStateView;

    open spec fn view(&self) -> AdaptiveTimeoutStateView {
        AdaptiveTimeoutStateView {
            current_timeout_ms: self.current_timeout_ms,
            latency_history: self.latency_history@,
            packet_loss_history: self.packet_loss_history@,
            last_evaluation: self.last_evaluation,
            network_quality_score: self.network_quality_score,
            consecutive_timeouts: self.consecutive_timeouts,
            consecutive_successes: self.consecutive_successes,
        }
    }
}

/// The state of the timeout manager as values.
pub struct AdaptiveTimeoutStateView {
    pub current_timeout_ms: u64,
    pub latency_history: Seq<u64>,
    pub packet_loss_history: Seq<u64>,
    pub last_evaluation: Option<u64>,
    pub network_quality_score: u64,
    pub consecutive_timeouts: u32,
    pub consecutive_successes: u32,
}

/// `v` held between `lo` and `hi`.
pub fn clamp_timeout(v: u64, lo: u64, hi: u64) -> (r: u64)
    ensures
        r == spec_clamp(v, lo, hi),
{
    let a = if v < lo { lo } else { v };
    if a > hi { hi } else { a }
}

/// The timeout after an evaluation recommends `rec` while the timeout is `old`, and what
/// that was.
pub fn adjust_timeout(c: &AdaptiveTimeoutConfig, old: u64, rec: u64) -> (r: (u64, TimeoutAdjustmentResult))
    ensures
        r == spec_adjustment(*c, old, rec),
{
    if rec > old {
        if rec >= c.max_timeout_ms {
            (c.max_timeout_ms, TimeoutAdjustmentResult::MaxReached(c.max_timeout_ms))
        } else {
            (rec, TimeoutAdjustmentResult::Increased(rec))
        }
    } else if rec < old {
        if rec <= c.min_timeout_ms {
            (c.min_timeout_ms, TimeoutAdjustmentResult::MinReached(c.min_timeout_ms))
        } else {
            (rec, TimeoutAdjustmentResult::Decreased(rec))
        }
    } else {
        (old, TimeoutAdjustmentResult::Unchanged(old))
    }
}

/// The sum of samples that are at most one million each.
pub fn sum_samples_bounded(s: &VecDeque<u64>) -> (r: u128)
    requires
        s@.len() <= 1000000,
        forall|i: int| 0 <= i < s@.len() ==> #[trigger] s@[i] <= 1000000,
    ensures
        r == seq_sum(s@),
        r <= s@.len() * 1000000,
{
    let n = s.len();
    let mut acc: u128 = 0;
    let mut i: usize = 0;
    while i < n
        invariant
            n == s@.len(),
            n <= 1000000,
            i <= n,
            forall|j: int| 0 <= j < s@.len() ==> #[trigger] s@[j] <= 1000000,
            acc == seq_sum(s@.take(i as int)),
            acc <= i * 1000000,
        decreases n - i,
    {
        proof {
            assert(s@.take(i + 1).drop_last() =~= s@.take(i as int));
        }
        acc = acc + s[i] as u128;
        i = i + 1;
    }
    assert(s@.take(n as int) =~= s@);
    acc
}

/// A window that holds at most a million samples, each below `bound`, still does after
/// `x`, below `bound` too, is appended with a window of at most a million.
proof fn lemma_windowed_in_range(s: Seq<u64>, x: u64, window: nat, bound: int)
    requires
        s.len() <= 1000000,
        forall|i: int| 0 <= i < s.len() ==> #[trigger] s[i] < bound,
        x < bound,
        window <= 1000000,
    ensures
        spec_windowed(s, x, window).len() <= 1000000,
        forall|i: int| 0 <= i < spec_windowed(s, x, window).len() ==> #[trigger] spec_windowed(s, x, window)[i] < bound,
{
    {
        let t = s.push(x);
        assert forall|i: int| 0 <= i < t.len() implies #[trigger] t[i] < bound by {
            if i < s.len() {
                assert(t[i] == s[i]);
            }
        }
        if t.len() > window {
            assert forall|i: int| 0 <= i < t.drop_first().len() implies #[trigger] t.drop_first()[i] < bound by {
                assert(t.drop_first()[i] == t[i + 1]);
            }
        }
    }
}

/// The sum of the squared distances of the samples from `y`.
pub open spec fn seq_sq_dev(s: Seq<u64>, y: int) -> int
    decreases s.len(),
{
    if s.len() == 0 { 0 } else { seq_sq_dev(s.drop_last(), y) + (s.last() - y) * (s.last() - y) }
}

/// The squared distances from `y` add up to the sum of squares less twice `y` times the
/// sum plus n times `y` squared, and never to less than zero.
proof fn lemma_sq_dev(s: Seq<u64>, y: int)
    ensures
        seq_sq_dev(s, y) == seq_sum_sq(s) - 2 * y * seq_sum(s) + (s.len() as int) * y * y,
        seq_sq_dev(s, y) >= 0,
    decreases s.len(),
{
    if s.len() > 0 {
        let t = s.drop_last();
        let x = s.last() as int;
        lemma_sq_dev(t, y);
        let a = seq_sum(t);
        let b = seq_sum_sq(t);
        let n = t.len() as int;
        assert(seq_sq_dev(t, y) + (x - y) * (x - y) == (b + x * x) - 2 * y * (a + x) + (n + 1) * y * y) by (nonlinear_arith)
            requires seq_sq_dev(t, y) == b - 2 * y * a + n * y * y;
        assert((x - y) * (x - y) >= 0) by (nonlinear_arith);
    }
}

/// The spread of a list of samples, n times the sum of squares less the square of the
/// sum, is never negative.
pub proof fn lemma_spread_nonnegative(s: Seq<u64>)
    ensures
        (s.len() as int) * seq_sum_sq(s) - seq_sum(s) * seq_sum(s) >= 0,
    decreases s.len(),
{
    if s.len() > 0 {
        let t = s.drop_last();
        let y = s.last() as int;
        let n = t.len() as int;
        let a = seq_sum(t);
        let b = seq_sum_sq(t);
        lemma_spread_nonnegative(t);
        lemma_sq_dev(t, y);
        assert((n + 1) * (b + y * y) - (a + y) * (a + y) == (n * b - a * a) + (b - 2 * y * a + n * y * y)) by (nonlinear_arith);
    }
}

/// Scaling a quotient: a million times `d / nn` is the whole part plus the scaled
/// remainder over `nn`.
pub proof fn lemma_scaled_div(d: int, nn: int, k: int)
    requires
        d >= 0,
        nn > 0,
        k > 0,
    ensures
        k * d / nn == k * (d / nn) + k * (d % nn) / nn,
{
    let q = d / nn;
    let r = d % nn;
    assert(d == nn * q + r) by (nonlinear_arith)
        requires q == d / nn, r == d % nn, nn > 0;
    assert(k * d == nn * (k * q) + k * r) by (nonlinear_arith)
        requires d == nn * q + r;
    assert(k * d / nn == k * q + k * r / nn) by (nonlinear_arith)
        requires k * d == nn * (k * q) + k * r, nn > 0, k * r >= 0;
}

/// A timeout from a recommendation always lies between the bounds when they are ordered:
/// it is the recommendation held between them, and it moves from the old timeout toward
/// the recommendation, never past it.
pub proof fn lemma_adjustment_within_bounds(c: AdaptiveTimeoutConfig, old: u64, rec: u64)
    requires
        c.min_timeout_ms <= c.max_timeout_ms,
        c.min_timeout_ms <= old <= c.max_timeout_ms,
    ensures
        c.min_timeout_ms <= spec_adjustment(c, old, rec).0 <= c.max_timeout_ms,
        spec_adjustment(c, old, rec).0 == if rec > c.max_timeout_ms {
            c.max_timeout_ms
        } else if rec < c.min_timeout_ms {
            c.min_timeout_ms
        } else {
            rec
        },
        rec >= old ==> old <= spec_adjustment(c, old, rec).0 <= rec,
        rec <= old ==> rec <= spec_adjustment(c, old, rec).0 <= old,
{
}


/// The timeout recommended for a quality score never rises as the quality rises: above
/// 0.8 (800000 millionths) it is eight tenths of the base timeout, above 0.6 the base,
/// above 0.4 one and a half times the base, and otherwise twice the base; each held
/// between the smallest and the largest timeout (raised to the smallest first, then
/// lowered to the largest).
pub proof fn lemma_recommended_follows_quality(c: AdaptiveTimeoutConfig, q1: int, q2: int)
    ensures
        ({
            let held = |x: int| {
                let lo = if x < c.min_timeout_ms { c.min_timeout_ms as int } else { x };
                if lo > c.max_timeout_ms { c.max_timeout_ms as int } else { lo }
            };
            &&& q1 > 800000 ==> spec_recommended(c, q1) == held(c.base_timeout_ms * 8 / 10)
            &&& 600000 < q1 <= 800000 ==> spec_recommended(c, q1) == held(c.base_timeout_ms as int)
            &&& 400000 < q1 <= 600000 ==> spec_recommended(c, q1) == held(c.base_timeout_ms * 15 / 10)
            &&& q1 <= 400000 ==> spec_recommended(c, q1) == held(c.base_timeout_ms * 2)
            &&& q1 <= q2 ==> spec_recommended(c, q2) <= spec_recommended(c, q1)
        }),
{
    let b = c.base_timeout_ms as int;
    assert(b * 8 / 10 <= b * 10 / 10 <= b * 15 / 10 <= b * 20 / 10) by (nonlinear_arith)
        requires b >= 0;
    assert(b * 10 / 10 == b);
    assert(b * 20 / 10 == b * 2);
}

/// The metrics of windows as the recording functions keep them have a quality score
/// between zero and one, and recommend the timeout that this score calls for.
pub proof fn lemma_metrics_recommend_by_quality(c: AdaptiveTimeoutConfig, lat: Seq<u64>, loss: Seq<u64>, sd: int)
    requires
        windows_in_range(lat, loss),
        sd >= 0,
    ensures
        spec_metrics(c, lat, loss, sd).quality_score_ppm <= 1000000,
        spec_metrics(c, lat, loss, sd).recommended_timeout_ms
            == spec_recommended(c, spec_metrics(c, lat, loss, sd).quality_score_ppm as int),
{
    let avg = spec_avg_us(lat);
    lemma_seq_sum_nonneg(lat);
    if lat.len() > 0 {
        assert(avg >= 0) by (nonlinear_arith)
            requires avg == 1000 * seq_sum(lat) / (lat.len() as int), seq_sum(lat) >= 0, lat.len() > 0;
    }
    let ls = spec_latency_score(avg, seq_sum(lat) > 0);
    let ss = spec_stability_score(sd);
    if seq_sum(lat) > 0 {
        assert(0 <= ls <= 1000000) by (nonlinear_arith)
            requires ls == 100000000000int / (avg + 100000), avg >= 0;
    }
    if sd != 0 {
        assert(0 <= ss <= 1000000) by (nonlinear_arith)
            requires ss == 50000000000int / (sd + 50000), sd >= 0;
    }
    let lp = spec_loss_ppm(loss);
    lemma_loss_mean_bounded(loss);
    let q = spec_quality(ls, ss, lp);
    assert(0 <= q <= 1000000);
}

/// A sum of samples is never negative.
proof fn lemma_seq_sum_nonneg(s: Seq<u64>)
    ensures
        seq_sum(s) >= 0,
    decreases s.len(),
{
    if s.len() > 0 {
        lemma_seq_sum_nonneg(s.drop_last());
    }
}

/// The mean of losses of at most one is between zero and one.
proof fn lemma_loss_mean_bounded(p: Seq<u64>)
    requires
        forall|i: int| 0 <= i < p.len() ==> #[trigger] p[i] <= 1000000,
    ensures
        0 <= spec_loss_ppm(p) <= 1000000,
{
    lemma_seq_sum_bounded(p);
    if p.len() > 0 {
        assert(seq_sum(p) / (p.len() as int) <= 1000000) by (nonlinear_arith)
            requires seq_sum(p) <= 1000000 * p.len(), p.len() > 0;
        assert(seq_sum(p) / (p.len() as int) >= 0) by (nonlinear_arith)
            requires seq_sum(p) >= 0, p.len() > 0;
    }
}

/// A sum of samples of at most one million is at most a million times their number.
proof fn lemma_seq_sum_bounded(p: Seq<u64>)
    requires
        forall|i: int| 0 <= i < p.len() ==> #[trigger] p[i] <= 1000000,
    ensures
        0 <= seq_sum(p) <= 1000000 * p.len(),
    decreases p.len(),
{
    if p.len() > 0 {
        let t = p.drop_last();
        assert forall|i: int| 0 <= i < t.len() implies #[trigger] t[i] <= 1000000 by {
            assert(t[i] == p[i]);
        }
        lemma_seq_sum_bounded(t);
        assert(p.last() == p[p.len() - 1]);
    }
}

/// The quality score weighs the latency score by four tenths, and the stability score and
/// the share of packets delivered by three tenths each (all in millionths): the latency
/// score is full when no latency was seen and otherwise 100 ms over the mean latency plus
/// 100 ms; the stability score is full with no spread and otherwise 50 ms over the
/// deviation plus 50 ms. A network without latency, spread or loss therefore scores one
/// and is recommended the timeout of the best networks; and the score never rises when
/// more packets are lost or the latencies spread more.
pub proof fn lemma_quality_score_weights(
    c: AdaptiveTimeoutConfig,
    lat: Seq<u64>,
    loss: Seq<u64>,
    more_loss: Seq<u64>,
    sd: int,
    more_sd: int,
)
    requires
        windows_in_range(lat, loss),
        windows_in_range(lat, more_loss),
        0 <= sd <= more_sd,
        (if loss.len() == 0 { 0 } else { seq_sum(loss) / (loss.len() as int) })
            <= (if more_loss.len() == 0 { 0 } else { seq_sum(more_loss) / (more_loss.len() as int) }),
    ensures
        ({
            let avg_us: int = if lat.len() == 0 { 0 } else { 1000 * seq_sum(lat) / (lat.len() as int) };
            let latency: int = if seq_sum(lat) == 0 { 1000000 } else { 100000000000int / (avg_us + 100000) };
            let stability: int = if sd == 0 { 1000000 } else { 50000000000int / (sd + 50000) };
            let delivered: int = 1000000 - (if loss.len() == 0 { 0 } else { seq_sum(loss) / (loss.len() as int) });
            let q = spec_metrics(c, lat, loss, sd).quality_score_ppm;
            &&& q == (4 * latency + 3 * stability + 3 * delivered) / 10
            &&& seq_sum(lat) == 0 && sd == 0 && seq_sum(loss) == 0 ==> q == 1000000
                && spec_metrics(c, lat, loss, sd).recommended_timeout_ms == spec_recommended(c, 1000000)
            &&& spec_metrics(c, lat, more_loss, sd).quality_score_ppm <= q
            &&& spec_metrics(c, lat, loss, more_sd).quality_score_ppm <= q
        }),
{
    lemma_metrics_recommend_by_quality(c, lat, loss, sd);
    lemma_metrics_recommend_by_quality(c, lat, more_loss, sd);
    lemma_metrics_recommend_by_quality(c, lat, loss, more_sd);
    let avg = spec_avg_us(lat);
    lemma_seq_sum_nonneg(lat);
    lemma_seq_sum_nonneg(loss);
    if lat.len() > 0 {
        assert(avg >= 0) by (nonlinear_arith)
            requires avg == 1000 * seq_sum(lat) / (lat.len() as int), seq_sum(lat) >= 0, lat.len() > 0;
    }
    let ls = spec_latency_score(avg, seq_sum(lat) > 0);
    let ss = spec_stability_score(sd);
    let ss2 = spec_stability_score(more_sd);
    if sd != 0 {
        assert(ss2 <= ss) by (nonlinear_arith)
            requires ss == 50000000000int / (sd + 50000), ss2 == 50000000000int / (more_sd + 50000), 0 < sd <= more_sd;
    } else if more_sd != 0 {
        assert(ss2 <= 1000000) by (nonlinear_arith)
            requires ss2 == 50000000000int / (more_sd + 50000), more_sd > 0;
    }
    if seq_sum(loss) == 0 && loss.len() > 0 {
        assert(seq_sum(loss) / (loss.len() as int) == 0);
    }
    let lp = spec_loss_ppm(loss);
    let lp2 = spec_loss_ppm(more_loss);
    lemma_loss_mean_bounded(loss);
    lemma_loss_mean_bounded(more_loss);
    if seq_sum(lat) > 0 {
        assert(0 <= ls <= 1000000) by (nonlinear_arith)
            requires ls == 100000000000int / (avg + 100000), avg >= 0;
    }
    if sd != 0 {
        assert(0 <= ss <= 1000000) by (nonlinear_arith)
            requires ss == 50000000000int / (sd + 50000), sd >= 0;
    }
    if more_sd != 0 {
        assert(0 <= ss2) by (nonlinear_arith)
            requires ss2 == 50000000000int / (more_sd + 50000), more_sd >= 0;
    }
    let q = spec_quality(ls, ss, lp);
    let q_loss = spec_quality(ls, ss, lp2);
    let q_sd = spec_quality(ls, ss2, lp);
    assert(0 <= q_loss <= q);
    assert(0 <= q_sd <= q);
    assert(spec_metrics(c, lat, loss, sd).quality_score_ppm == q);
    assert(spec_metrics(c, lat, more_loss, sd).quality_score_ppm == q_loss);
    assert(spec_metrics(c, lat, loss, more_sd).quality_score_ppm == q_sd);
}

} // verus!
