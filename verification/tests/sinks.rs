use crossfury::sinks::factory::{SinkConfig, SinkFactory};
use crossfury::sinks::SinkType;

#[test]
fn test_sink_config_validation() {
    let valid_config = SinkConfig::File {
        data_dir: "/tmp".to_string(),
        batch_size: Some(1000),
        flush_interval_ms: Some(5000),
        rotation_size_bytes: None,
        enable_compression: Some(false),
    };
    assert!(valid_config.validate().is_ok());

    let invalid_config = SinkConfig::File {
        data_dir: "".to_string(),
        batch_size: Some(1000),
        flush_interval_ms: Some(5000),
        rotation_size_bytes: None,
        enable_compression: Some(false),
    };
    assert!(invalid_config.validate().is_err());
}

#[test]
fn test_supported_types() {
    let types = SinkFactory::supported_types();
    assert!(types.contains(&SinkType::File));
    assert!(SinkFactory::is_supported(&SinkType::File));
}
