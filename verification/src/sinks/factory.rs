//! Settings of the sinks and the factory's decisions: which settings are valid, which
//! kinds are supported, and the file sink settings that a valid configuration gives.
//! Opening files is done by the caller.
use vstd::prelude::*;
use crate::sinks::file_sink::FileSinkConfig;
use crate::sinks::SinkType;
use crate::text::owned;
use crate::types::errors::AppError;

verus! {

/// Settings of one sink, by kind.
#[derive(Debug, Clone)]
pub enum SinkConfig {
    File {
        data_dir: String,
        batch_size: Option<usize>,
        flush_interval_ms: Option<u64>,
        rotation_size_bytes: Option<u64>,
        enable_compression: Option<bool>,
    },
    Kafka {
        brokers: String,
        topic: String,
        batch_size: Option<usize>,
        compression: Option<String>,
        security_protocol: Option<String>,
    },
    ClickHouse {
        url: String,
        database: String,
        table: String,
        batch_size: Option<usize>,
        username: Option<String>,
        password: Option<String>,
    },
    S3 {
        bucket: String,
        prefix: String,
        region: String,
        access_key: Option<String>,
        secret_key: Option<String>,
        batch_size: Option<usize>,
    },
}

/// The message of the first required setting that is empty, if any.
pub open spec fn spec_validation_error(c: SinkConfig) -> Option<Seq<char>> {
    match c {
        SinkConfig::File { data_dir, .. } => if data_dir@.len() == 0 { Some("数据目录不能为空"@) } else { None },
        SinkConfig::Kafka { brokers, topic, .. } => if brokers@.len() == 0 {
            Some("Kafka brokers不能为空"@)
        } else if topic@.len() == 0 {
            Some("Kafka topic不能为空"@)
        } else {
            None
        },
        SinkConfig::ClickHouse { url, database, table, .. } => if url@.len() == 0 {
            Some("ClickHouse URL不能为空"@)
        } else if database@.len() == 0 {
            Some("ClickHouse数据库名不能为空"@)
        } else if table@.len() == 0 {
            Some("ClickHouse表名不能为空"@)
        } else {
            None
        },
        SinkConfig::S3 { bucket, region, .. } => if bucket@.len() == 0 {
            Some("S3 bucket不能为空"@)
        } else if region@.len() == 0 {
            Some("S3 region不能为空"@)
        } else {
            None
        },
    }
}

/// Whether a result is the configuration error with message `m`.
pub open spec fn is_config_error(r: Result<(), AppError>, m: Seq<char>) -> bool {
    r matches Err(AppError::ConfigError(e)) && e@ == m
}

impl SinkConfig {
    /// The kind of sink these settings are for.
    pub fn get_type(&self) -> (r: SinkType)
        ensures
            r == match *self {
                SinkConfig::File { .. } => SinkType::File,
                SinkConfig::Kafka { .. } => SinkType::Kafka,
                SinkConfig::ClickHouse { .. } => SinkType::ClickHouse,
                SinkConfig::S3 { .. } => SinkType::S3,
            },
    {
        match self {
            SinkConfig::File { .. } => SinkType::File,
            SinkConfig::Kafka { .. } => SinkType::Kafka,
            SinkConfig::ClickHouse { .. } => SinkType::ClickHouse,
            SinkConfig::S3 { .. } => SinkType::S3,
        }
    }

    /// Checks that the required settings are not empty: the directory of a file sink, the
    /// brokers and topic of Kafka, the URL, database and table of ClickHouse, the bucket and
    /// region of S3. The first empty one is reported.
    pub fn validate(&self) -> (r: Result<(), AppError>)
        ensures
            match spec_validation_error(*self) {
                None => r is Ok,
                Some(m) => is_config_error(r, m),
            },
    {
        match self {
            SinkConfig::File { data_dir, .. } => {
                if data_dir.as_str().unicode_len() == 0 {
                    return Err(AppError::ConfigError(owned("数据目录不能为空")));
                }
            },
            SinkConfig::Kafka { brokers, topic, .. } => {
                if brokers.as_str().unicode_len() == 0 {
                    return Err(AppError::ConfigError(owned("Kafka brokers不能为空")));
                }
                if topic.as_str().unicode_len() == 0 {
                    return Err(AppError::ConfigError(owned("Kafka topic不能为空")));
                }
            },
            SinkConfig::ClickHouse { url, database, table, .. } => {
                if url.as_str().unicode_len() == 0 {
                    return Err(AppError::ConfigError(owned("ClickHouse URL不能为空")));
                }
                if database.as_str().unicode_len() == 0 {
                    return Err(AppError::ConfigError(owned("ClickHouse数据库名不能为空")));
                }
                if table.as_str().unicode_len() == 0 {
                    return Err(AppError::ConfigError(owned("ClickHouse表名不能为空")));
                }
            },
            SinkConfig::S3 { bucket, region, .. } => {
                if bucket.as_str().unicode_len() == 0 {
                    return Err(AppError::ConfigError(owned("S3 bucket不能为空")));
                }
                if region.as_str().unicode_len() == 0 {
                    return Err(AppError::ConfigError(owned("S3 region不能为空")));
                }
            },
        }
        Ok(())
    }
}

impl Default for SinkConfig {
    fn default() -> (r: Self)
        ensures
            r matches SinkConfig::File { data_dir, batch_size, flush_interval_ms, rotation_size_bytes, enable_compression }
                && data_dir@ == "./data"@
                && batch_size == Some(128usize)
                && flush_interval_ms == Some(1000u64)
                && rotation_size_bytes == Some(104857600u64)
                && enable_compression == Some(false),
    {
        SinkConfig::File {
            data_dir: owned("./data"),
            batch_size: Some(128),
            flush_interval_ms: Some(1000),
            rotation_size_bytes: Some(100 * 1024 * 1024),
            enable_compression: Some(false),
        }
    }
}

/// The sink part of the application settings: a kind by name and, for files, their
/// settings.
#[derive(Debug, Clone)]
pub struct SinkConfiguration {
    pub sink_type: String,
    pub file: Option<FileSinkConfig>,
}

/// Builds sinks from their settings.
pub struct SinkFactory;

/// The kinds of sink that can be built.
pub open spec fn spec_supported_types() -> Seq<SinkType> {
    seq![SinkType::File]
}

/// What a factory makes of the sink part of the application settings: the file settings
/// for `file`, or the error it reports.
pub open spec fn spec_configuration_outcome(kind: Seq<char>, has_file: bool) -> Option<Seq<char>> {
    if kind == "file"@ {
        if has_file { None } else { Some("文件Sink配置缺失"@) }
    } else if kind == "kafka"@ {
        Some("Kafka Sink尚未实现"@)
    } else if kind == "clickhouse"@ {
        Some("ClickHouse Sink尚未实现"@)
    } else if kind == "s3"@ {
        Some("S3 Sink尚未实现"@)
    } else {
        Some("不支持的Sink类型: "@ + kind)
    }
}

impl SinkFactory {
    /// The file settings named by the sink part of the application settings. Only files
    /// are built; the other known kinds are reported as not implemented yet.
    pub fn file_config_from_configuration(config: &SinkConfiguration) -> (r: Result<FileSinkConfig, AppError>)
        ensures
            match spec_configuration_outcome(config.sink_type@, config.file is Some) {
                None => r matches Ok(f) && f.same_as(config.file->0),
                Some(m) => r matches Err(AppError::ConfigError(e)) && e@ == m,
            },
    {
        proof {
            reveal_strlit("file");
            reveal_strlit("kafka");
            reveal_strlit("clickhouse");
            reveal_strlit("s3");
        }
        let kind = config.sink_type.as_str();
        if crate::text::str_equals(kind, "file") {
            match &config.file {
                Some(f) => Ok(f.duplicate()),
                None => Err(AppError::ConfigError(owned("文件Sink配置缺失"))),
            }
        } else if crate::text::str_equals(kind, "kafka") {
            Err(AppError::ConfigError(owned("Kafka Sink尚未实现")))
        } else if crate::text::str_equals(kind, "clickhouse") {
            Err(AppError::ConfigError(owned("ClickHouse Sink尚未实现")))
        } else if crate::text::str_equals(kind, "s3") {
            Err(AppError::ConfigError(owned("S3 Sink尚未实现")))
        } else {
            Err(AppError::ConfigError(owned("不支持的Sink类型: ").concat(kind)))
        }
    }

    /// The file settings that a sink configuration gives once it is valid: the defaults
    /// fill what it leaves open (a batch of 128, a flush each second, no compression).
    /// Invalid settings give their validation error; the kinds other than files are not
    /// implemented yet.
    pub fn file_sink_config(config: SinkConfig) -> (r: Result<FileSinkConfig, AppError>)
        ensures
            match spec_validation_error(config) {
                Some(m) => r matches Err(AppError::ConfigError(e)) && e@ == m,
                None => match config {
                    SinkConfig::File { data_dir, batch_size, flush_interval_ms, rotation_size_bytes, enable_compression } =>
                        r matches Ok(f) && f.data_dir@ == data_dir@
                            && f.batch_size == (match batch_size { Some(b) => b, None => 128usize })
                            && f.flush_interval_ms == (match flush_interval_ms { Some(t) => t, None => 1000u64 })
                            && f.rotation_size_bytes == rotation_size_bytes
                            && f.enable_compression == (match enable_compression { Some(c) => c, None => false }),
                    SinkConfig::Kafka { .. } => r matches Err(AppError::ConfigError(e)) && e@ == "Kafka Sink尚未实现"@,
                    SinkConfig::ClickHouse { .. } => r matches Err(AppError::ConfigError(e)) && e@ == "ClickHouse Sink尚未实现"@,
                    SinkConfig::S3 { .. } => r matches Err(AppError::ConfigError(e)) && e@ == "S3 Sink尚未实现"@,
                },
            },
    {
        match config.validate() {
            Err(e) => return Err(e),
            Ok(()) => {},
        }
        match config {
            SinkConfig::File { data_dir, batch_size, flush_interval_ms, rotation_size_bytes, enable_compression } => {
                Ok(FileSinkConfig {
                    data_dir,
                    batch_size: match batch_size { Some(b) => b, None => 128 },
                    flush_interval_ms: match flush_interval_ms { Some(t) => t, None => 1000 },
                    rotation_size_bytes,
                    enable_compression: match enable_compression { Some(c) => c, None => false },
                })
            },
            SinkConfig::Kafka { .. } => Err(AppError::ConfigError(owned("Kafka Sink尚未实现"))),
            SinkConfig::ClickHouse { .. } => Err(AppError::ConfigError(owned("ClickHouse Sink尚未实现"))),
            SinkConfig::S3 { .. } => Err(AppError::ConfigError(owned("S3 Sink尚未实现"))),
        }
    }

    /// The kinds of sink that can be built: only files for now.
    pub fn supported_types() -> (r: Vec<SinkType>)
        ensures
            r@ == spec_supported_types(),
    {
        let r = vec![SinkType::File];
        assert(r@ =~= spec_supported_types());
        r
    }

    /// Whether sinks of this kind can be built.
    pub fn is_supported(sink_type: &SinkType) -> (r: bool)
        ensures
            r == spec_supported_types().contains(*sink_type),
            r == (*sink_type == SinkType::File),
    {
        let types = Self::supported_types();
        let n = types.len();
        let mut i: usize = 0;
        while i < n
            invariant
                n == types@.len(),
                types@ == spec_supported_types(),
                i <= n,
                forall|j: int| 0 <= j < i ==> types@[j] != *sink_type,
            decreases n - i,
        {
            if types[i] == *sink_type {
                assert(types@[i as int] == *sink_type);
                return true;
            }
            i = i + 1;
        }
        assert(types@[0] == SinkType::File);
        false
    }
}

} // verus!
