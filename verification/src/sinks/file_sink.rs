//! The file sink's bookkeeping: records wait in a buffer until a batch is full or the
//! flush interval has passed, and each flush updates the counters and the health. Writing
//! the lines to the file is done by the caller, between `take_for_flush` and
//! `finish_flush_at`. Times are milliseconds.
use vstd::prelude::*;
use crate::sinks::{SinkHealth, SinkMetrics};
use crate::text::owned;

verus! {

/// Settings of a file sink.
#[derive(Debug, Clone)]
pub struct FileSinkConfig {
    pub data_dir: String,
    pub batch_size: usize,
    pub flush_interval_ms: u64,
    pub rotation_size_bytes: Option<u64>,
    pub enable_compression: bool,
}

impl FileSinkConfig {
    /// Whether two settings are the same.
    pub open spec fn same_as(&self, other: FileSinkConfig) -> bool {
        &&& self.data_dir@ == other.data_dir@
        &&& self.batch_size == other.batch_size
        &&& self.flush_interval_ms == other.flush_interval_ms
        &&& self.rotation_size_bytes == other.rotation_size_bytes
        &&& self.enable_compression == other.enable_compression
    }

    /// A copy of these settings.
    pub fn duplicate(&self) -> (r: Self)
        ensures
            r.same_as(*self),
    {
        FileSinkConfig {
            data_dir: self.data_dir.clone(),
            batch_size: self.batch_size,
            flush_interval_ms: self.flush_interval_ms,
            rotation_size_bytes: self.rotation_size_bytes,
            enable_compression: self.enable_compression,
        }
    }
}

impl Default for FileSinkConfig {
    fn default() -> (r: Self)
        ensures
            r.data_dir@ == "./data"@,
            r.batch_size == 128,
            r.flush_interval_ms == 1000,
            r.rotation_size_bytes == Some(104857600u64),
            !r.enable_compression,
    {
        FileSinkConfig {
            data_dir: owned("./data"),
            batch_size: 128,
            flush_interval_ms: 1000,
            rotation_size_bytes: Some(100 * 1024 * 1024),
            enable_compression: false,
        }
    }
}

/// The path of the data file in `data_dir`.
pub fn data_file_path(data_dir: &str) -> (r: String)
    ensures
        r@ == data_dir@ + "/market_data.jsonl"@,
{
    owned(data_dir).concat("/market_data.jsonl")
}

/// The time from `then` to `now`, or zero when `now` is earlier.
pub open spec fn spec_since(then: u64, now: u64) -> u64 {
    if now >= then { (now - then) as u64 } else { 0 }
}

/// Whether the buffer should be written at `now`: a batch is full, or the flush interval
/// has passed since the last flush.
pub open spec fn spec_should_flush(c: FileSinkConfig, buffered: nat, last_flush: u64, now: u64) -> bool {
    buffered >= c.batch_size || spec_since(last_flush, now) >= c.flush_interval_ms
}

/// The file sink's state apart from the open file.
#[derive(Debug)]
pub struct FileSinkState {
    pub config: FileSinkConfig,
    pub buffer: Vec<String>,
    pub metrics: SinkMetrics,
    pub health: SinkHealth,
    pub last_flush: u64,
}

impl FileSinkState {
    /// A sink with an empty buffer, zero counters and a healthy state, last flushed `now`.
    pub fn new_at(config: FileSinkConfig, now: u64) -> (r: Self)
        ensures
            r.config == config,
            r.buffer@.len() == 0,
            r.metrics == crate::sinks::spec_zero_metrics(),
            r.health.is_healthy,
            r.health.details.wf(),
            r.last_flush == now,
    {
        FileSinkState {
            config,
            buffer: Vec::new(),
            metrics: SinkMetrics::new(),
            health: SinkHealth::new(),
            last_flush: now,
        }
    }

    /// Buffers one record.
    pub fn push_record(&mut self, json_str: &str)
        ensures
            final(self).buffer@.len() == old(self).buffer@.len() + 1,
            final(self).buffer@.last()@ == json_str@,
            final(self).buffer@.drop_last() == old(self).buffer@,
            final(self).config == old(self).config,
            final(self).metrics == old(self).metrics,
            final(self).health == old(self).health,
            final(self).last_flush == old(self).last_flush,
    {
        self.buffer.push(owned(json_str));
        assert(self.buffer@.drop_last() =~= old(self).buffer@);
    }

    /// Buffers several records, in order.
    pub fn push_batch(&mut self, json_strings: &Vec<String>)
        ensures
            final(self).buffer@.len() == old(self).buffer@.len() + json_strings@.len(),
            final(self).buffer@.take(old(self).buffer@.len() as int) == old(self).buffer@,
            forall|i: int| 0 <= i < json_strings@.len()
                ==> (#[trigger] final(self).buffer@[old(self).buffer@.len() + i])@ == json_strings@[i]@,
            final(self).config == old(self).config,
            final(self).metrics == old(self).metrics,
            final(self).health == old(self).health,
            final(self).last_flush == old(self).last_flush,
    {
        let n = json_strings.len();
        let ghost b0 = self.buffer@;
        let mut i: usize = 0;
        while i < n
            invariant
                n == json_strings@.len(),
                i <= n,
                self.buffer@.len() == b0.len() + i,
                self.buffer@.take(b0.len() as int) == b0,
                forall|j: int| 0 <= j < i ==> (#[trigger] self.buffer@[b0.len() + j])@ == json_strings@[j]@,
                self.config == old(self).config,
                self.metrics == old(self).metrics,
                self.health == old(self).health,
                self.last_flush == old(self).last_flush,
            decreases n - i,
        {
            let ghost before = self.buffer@;
            self.buffer.push(json_strings[i].clone());
            proof {
                assert(self.buffer@.take(b0.len() as int) =~= before.take(b0.len() as int));
                assert forall|j: int| 0 <= j < i + 1 implies (#[trigger] self.buffer@[b0.len() + j])@ == json_strings@[j]@ by {
                    if j < i {
                        assert(self.buffer@[b0.len() + j] == before[b0.len() + j]);
                    }
                }
            }
            i = i + 1;
        }
    }

    /// Whether the buffer should be written at `now`.
    pub fn should_flush_at(&self, now: u64) -> (r: bool)
        ensures
            r == spec_should_flush(self.config, self.buffer@.len(), self.last_flush, now),
    {
        let elapsed = if now >= self.last_flush { now - self.last_flush } else { 0 };
        self.buffer.len() >= self.config.batch_size || elapsed >= self.config.flush_interval_ms
    }

    /// Takes the buffered records out for writing; the buffer is left empty.
    pub fn take_for_flush(&mut self) -> (r: Vec<String>)
        ensures
            r@ == old(self).buffer@,
            final(self).buffer@.len() == 0,
            final(self).config == old(self).config,
            final(self).metrics == old(self).metrics,
            final(self).health == old(self).health,
            final(self).last_flush == old(self).last_flush,
    {
        let mut out: Vec<String> = Vec::new();
        std::mem::swap(&mut out, &mut self.buffer);
        out
    }

    /// Records a flush of `record_count` records and `bytes` bytes that took `latency_us`
    /// and ended at `now`: the counters grow, the sink is healthy and was last written and
    /// flushed at `now`.
    pub fn finish_flush_at(&mut self, record_count: usize, bytes: usize, latency_us: u64, now: u64)
        requires
            old(self).metrics.records_written + record_count <= u64::MAX,
            old(self).metrics.bytes_written + bytes <= u64::MAX,
            old(self).metrics.flush_count < u64::MAX,
        ensures
            final(self).metrics.records_written == old(self).metrics.records_written + record_count,
            final(self).metrics.bytes_written == old(self).metrics.bytes_written + bytes,
            final(self).metrics.flush_count == old(self).metrics.flush_count + 1,
            final(self).metrics.avg_write_latency_us == if old(self).metrics.records_written == 0 {
                latency_us
            } else {
                crate::sinks::spec_next_average(old(self).metrics.avg_write_latency_us, latency_us)
            },
            final(self).health.is_healthy,
            final(self).health.last_write_time == Some(now),
            final(self).health.error_count == old(self).health.error_count,
            final(self).last_flush == now,
            final(self).buffer@ == old(self).buffer@,
            final(self).config == old(self).config,
    {
        self.metrics.record_write(record_count, bytes, latency_us);
        self.metrics.record_flush();
        self.health.mark_write_success_at(now);
        self.last_flush = now;
    }

    /// Counts a batch of `count` records handed to the sink, which took `latency_us`; their
    /// bytes are counted when they are flushed.
    pub fn record_batch_write(&mut self, count: usize, latency_us: u64)
        requires
            old(self).metrics.records_written + count <= u64::MAX,
        ensures
            final(self).metrics.records_written == old(self).metrics.records_written + count,
            final(self).metrics.bytes_written == old(self).metrics.bytes_written,
            final(self).buffer@ == old(self).buffer@,
            final(self).health == old(self).health,
            final(self).last_flush == old(self).last_flush,
    {
        self.metrics.record_write(count, 0, latency_us);
    }

    /// The health at `now`: unhealthy with the error 数据目录不存在 when the data directory
    /// is gone, and with a warning when nothing was written for more than five minutes.
    pub fn health_report_at(&self, dir_exists: bool, now: u64) -> (r: SinkHealth)
        requires
            self.health.details.wf(),
            !dir_exists ==> self.health.error_count < u64::MAX,
        ensures
            r.details.wf(),
            r.is_healthy == (self.health.is_healthy && dir_exists),
            r.error_count == self.health.error_count + if dir_exists { 0int } else { 1int },
            r.last_write_time == self.health.last_write_time,
            r.details.view() == {
                let d1 = if dir_exists {
                    self.health.details.view()
                } else {
                    self.health.details.view().insert("last_error"@, "数据目录不存在"@)
                };
                match self.health.last_write_time {
                    Some(t) => if spec_since(t, now) / 1000 > 300 {
                        d1.insert("warning"@, "超过5分钟没有写入数据"@)
                    } else {
                        d1
                    },
                    None => d1,
                }
            },
    {
        let mut report = self.health.duplicate();
        if !dir_exists {
            report = report.with_error("数据目录不存在");
        }
        match report.last_write_time {
            Some(t) => {
                let elapsed = if now >= t { now - t } else { 0 };
                if elapsed / 1000 > 300 {
                    report.details.insert(owned("warning"), owned("超过5分钟没有写入数据"));
                }
            },
            None => {},
        }
        report
    }

    /// The counters, with the current number of buffered records.
    pub fn metrics_snapshot(&self) -> (r: SinkMetrics)
        ensures
            r == (SinkMetrics { buffer_size: self.buffer@.len() as usize, ..self.metrics }),
    {
        let mut r = self.metrics;
        r.buffer_size = self.buffer.len();
        r
    }
}

} // verus!
