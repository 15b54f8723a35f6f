//! Where market data is stored: the health and counters of a sink, the kinds of sink, and
//! (in the submodules) their settings and the file sink's buffering.
use vstd::prelude::*;
use crate::clock::now_millis;
use crate::str_map::{clone_string_map, StrMap};
use crate::text::{lower_case_of, owned, to_lower};
use crate::types::errors::AppError;

pub mod factory;
pub mod file_sink;

verus! {

/// The health of a sink. The time of the last write is in milliseconds.
#[derive(Debug)]
pub struct SinkHealth {
    pub is_healthy: bool,
    pub last_write_time: Option<u64>,
    pub error_count: u64,
    pub details: StrMap<String>,
}

impl SinkHealth {
    /// A healthy sink that has not written yet.
    pub fn new() -> (r: Self)
        ensures
            r.is_healthy,
            r.last_write_time is None,
            r.error_count == 0,
            r.details.wf(),
            r.details.view() == Map::<Seq<char>, Seq<char>>::empty(),
    {
        SinkHealth { is_healthy: true, last_write_time: None, error_count: 0, details: StrMap::new() }
    }

    /// The same health, marked unhealthy with one more error, and `error` kept as the
    /// detail `last_error`.
    pub fn with_error(self, error: &str) -> (r: Self)
        requires
            self.details.wf(),
            self.error_count < u64::MAX,
        ensures
            !r.is_healthy,
            r.error_count == self.error_count + 1,
            r.last_write_time == self.last_write_time,
            r.details.wf(),
            r.details.view() == self.details.view().insert("last_error"@, error@),
    {
        let mut r = self;
        r.is_healthy = false;
        r.error_count = r.error_count + 1;
        r.details.insert(owned("last_error"), owned(error));
        r
    }

    /// Notes a successful write at `now`.
    pub fn mark_write_success_at(&mut self, now: u64)
        ensures
            final(self).is_healthy,
            final(self).last_write_time == Some(now),
            final(self).error_count == old(self).error_count,
            final(self).details == old(self).details,
    {
        self.last_write_time = Some(now);
        self.is_healthy = true;
    }

    /// Notes a successful write now, by the system clock.
    pub fn mark_write_success(&mut self)
        ensures
            final(self).is_healthy,
            final(self).last_write_time is Some,
            final(self).error_count == old(self).error_count,
            final(self).details == old(self).details,
    {
        let now = now_millis();
        self.mark_write_success_at(now);
    }

    /// A copy of this health.
    pub fn duplicate(&self) -> (r: Self)
        requires
            self.details.wf(),
        ensures
            r.is_healthy == self.is_healthy,
            r.last_write_time == self.last_write_time,
            r.error_count == self.error_count,
            r.details.wf(),
            r.details.view() == self.details.view(),
    {
        SinkHealth {
            is_healthy: self.is_healthy,
            last_write_time: self.last_write_time,
            error_count: self.error_count,
            details: clone_string_map(&self.details),
        }
    }
}

/// Counters of a sink. The write latency is a moving average in microseconds: the first
/// write sets it, each later one moves it a tenth of the way to its own latency (rounded
/// down).
#[derive(Debug, Clone, Copy, PartialEq, Eq, Structural)]
pub struct SinkMetrics {
    pub records_written: u64,
    pub bytes_written: u64,
    pub write_errors: u64,
    pub flush_count: u64,
    pub avg_write_latency_us: u64,
    pub buffer_size: usize,
}

/// All counters at zero.
pub open spec fn spec_zero_metrics() -> SinkMetrics {
    SinkMetrics {
        records_written: 0,
        bytes_written: 0,
        write_errors: 0,
        flush_count: 0,
        avg_write_latency_us: 0,
        buffer_size: 0,
    }
}

/// The moving average after a write of latency `latency` when the average was `avg`.
pub open spec fn spec_next_average(avg: u64, latency: u64) -> u64 {
    ((9 * avg + latency) / 10) as u64
}

impl Default for SinkMetrics {
    fn default() -> (r: Self)
        ensures
            r == spec_zero_metrics(),
    {
        SinkMetrics {
            records_written: 0,
            bytes_written: 0,
            write_errors: 0,
            flush_count: 0,
            avg_write_latency_us: 0,
            buffer_size: 0,
        }
    }
}

impl SinkMetrics {
    /// All counters at zero.
    pub fn new() -> (r: Self)
        ensures
            r == spec_zero_metrics(),
    {
        Self::default()
    }

    /// Counts a write of `record_count` records and `bytes` bytes that took `latency_us`.
    pub fn record_write(&mut self, record_count: usize, bytes: usize, latency_us: u64)
        requires
            old(self).records_written + record_count <= u64::MAX,
            old(self).bytes_written + bytes <= u64::MAX,
        ensures
            final(self).records_written == old(self).records_written + record_count,
            final(self).bytes_written == old(self).bytes_written + bytes,
            final(self).avg_write_latency_us == if old(self).records_written == 0 {
                latency_us
            } else {
                spec_next_average(old(self).avg_write_latency_us, latency_us)
            },
            final(self).write_errors == old(self).write_errors,
            final(self).flush_count == old(self).flush_count,
            final(self).buffer_size == old(self).buffer_size,
    {
        self.records_written = self.records_written + record_count as u64;
        self.bytes_written = self.bytes_written + bytes as u64;
        if self.records_written == record_count as u64 {
            self.avg_write_latency_us = latency_us;
        } else {
            let wide = (9 * (self.avg_write_latency_us as u128) + latency_us as u128) / 10;
            self.avg_write_latency_us = wide as u64;
        }
    }

    /// Counts a failed write.
    pub fn record_error(&mut self)
        requires
            old(self).write_errors < u64::MAX,
        ensures
            *final(self) == (SinkMetrics { write_errors: (old(self).write_errors + 1) as u64, ..*old(self) }),
    {
        self.write_errors = self.write_errors + 1;
    }

    /// Counts a flush.
    pub fn record_flush(&mut self)
        requires
            old(self).flush_count < u64::MAX,
        ensures
            *final(self) == (SinkMetrics { flush_count: (old(self).flush_count + 1) as u64, ..*old(self) }),
    {
        self.flush_count = self.flush_count + 1;
    }
}

/// Kinds of sink.
#[derive(Debug, Clone, Copy, PartialEq, Eq, Structural)]
pub enum SinkType {
    File,
    Kafka,
    ClickHouse,
    S3,
}

/// The kind of sink a lower-case name denotes.
pub open spec fn spec_sink_type_of_name(name: Seq<char>) -> Option<SinkType> {
    if name == "file"@ {
        Some(SinkType::File)
    } else if name == "kafka"@ {
        Some(SinkType::Kafka)
    } else if name == "clickhouse"@ {
        Some(SinkType::ClickHouse)
    } else if name == "s3"@ {
        Some(SinkType::S3)
    } else {
        None
    }
}

/// The lower-case name of a kind of sink.
pub open spec fn spec_sink_type_name(t: SinkType) -> Seq<char> {
    match t {
        SinkType::File => "file"@,
        SinkType::Kafka => "kafka"@,
        SinkType::ClickHouse => "clickhouse"@,
        SinkType::S3 => "s3"@,
    }
}

impl SinkType {
    /// The kind of sink a lower-case name denotes, if any.
    pub fn from_lower_name(name: &str) -> (r: Option<SinkType>)
        ensures
            r == spec_sink_type_of_name(name@),
    {
        proof {
            reveal_strlit("file");
            reveal_strlit("kafka");
            reveal_strlit("clickhouse");
            reveal_strlit("s3");
        }
        if crate::text::str_equals(name, "file") {
            Some(SinkType::File)
        } else if crate::text::str_equals(name, "kafka") {
            Some(SinkType::Kafka)
        } else if crate::text::str_equals(name, "clickhouse") {
            Some(SinkType::ClickHouse)
        } else if crate::text::str_equals(name, "s3") {
            Some(SinkType::S3)
        } else {
            None
        }
    }

    /// The kind of sink a name denotes in any case; an unknown name is a configuration
    /// error that quotes it.
    pub fn from_str(s: &str) -> (r: Result<SinkType, AppError>)
        ensures
            match spec_sink_type_of_name(lower_case_of(s@)) {
                Some(t) => r == Ok::<SinkType, AppError>(t),
                None => r matches Err(AppError::ConfigError(m)) && m@ == "未知的Sink类型: "@ + s@,
            },
    {
        let lower = to_lower(s);
        match Self::from_lower_name(lower.as_str()) {
            Some(t) => Ok(t),
            None => Err(AppError::ConfigError(owned("未知的Sink类型: ").concat(s))),
        }
    }

    /// The lower-case name of the kind.
    pub fn as_str(&self) -> (r: &'static str)
        ensures
            r@ == spec_sink_type_name(*self),
    {
        match self {
            SinkType::File => "file",
            SinkType::Kafka => "kafka",
            SinkType::ClickHouse => "clickhouse",
            SinkType::S3 => "s3",
        }
    }
}

/// Reading back the name of a kind of sink gives the kind, also after it is lower-cased
/// as `from_str` does.
pub proof fn lemma_sink_type_name_roundtrip(t: SinkType)
    ensures
        spec_sink_type_of_name(spec_sink_type_name(t)) == Some(t),
        spec_sink_type_of_name(lower_case_of(spec_sink_type_name(t))) == Some(t),
{
    reveal_strlit("file");
    reveal_strlit("kafka");
    reveal_strlit("clickhouse");
    reveal_strlit("s3");
    crate::text::lemma_lower_case_fixed(spec_sink_type_name(t));
    assert("file"@.len() == 4);
    assert("kafka"@.len() == 5);
    assert("clickhouse"@.len() == 10);
    assert("s3"@.len() == 2);
}

} // verus!
