use crossfury::connectors::managers::config_manager::{
    env_config_key, ConfigError, ConfigManager, ConfigMetadata, ConfigSource, ReloadAction,
};
use crossfury::connectors::managers::modern_manager::{DefaultModernConnectorManager, ManagerConfig, ManagerError};
use crossfury::connectors::traits::modern::ModernConnectionStatus;
use crossfury::connectors::traits::modern_binance::ModernBinanceCore;
use crossfury::str_map::StrMap;
use crossfury::types::errors::ConnectorError;

#[test]
fn test_manager_creation() {
    let manager: DefaultModernConnectorManager<ModernBinanceCore> = DefaultModernConnectorManager::new();
    assert_eq!(manager.connector_count(), 0);
}

#[test]
fn test_connector_registration() {
    let mut manager: DefaultModernConnectorManager<ModernBinanceCore> = DefaultModernConnectorManager::new();
    let result = manager.register_connector("test".to_string(), ModernBinanceCore::new());
    assert!(result.is_ok());
    assert_eq!(manager.connector_count(), 1);
}

#[test]
fn test_connector_unregistration() {
    let mut manager: DefaultModernConnectorManager<ModernBinanceCore> = DefaultModernConnectorManager::new();
    manager.register_connector("test".to_string(), ModernBinanceCore::new()).unwrap();
    let result = manager.unregister_connector("test");
    assert!(result.is_ok());
    assert_eq!(manager.connector_count(), 0);
    match manager.unregister_connector("test") {
        Err(e) => assert_eq!(e.message(), "连接器不存在: test"),
        Ok(()) => panic!("expected a missing connector"),
    }
}

#[test]
fn test_duplicate_registration() {
    let mut manager: DefaultModernConnectorManager<ModernBinanceCore> = DefaultModernConnectorManager::new();
    manager.register_connector("test".to_string(), ModernBinanceCore::new()).unwrap();
    let result = manager.register_connector("test".to_string(), ModernBinanceCore::new());
    assert!(matches!(result, Err(ManagerError::ConnectorAlreadyExists { .. })));
    assert_eq!(manager.connector_count(), 1);
}

#[test]
fn test_tags_and_listing() {
    let mut manager: DefaultModernConnectorManager<u32> = DefaultModernConnectorManager::with_config(ManagerConfig::default());
    let mut tags = StrMap::new();
    tags.insert("region".to_string(), "asia".to_string());
    manager.register_connector_with_options_at("a".to_string(), 1, true, tags, 100).unwrap();
    let mut tags = StrMap::new();
    tags.insert("region".to_string(), "europe".to_string());
    manager.register_connector_with_options_at("b".to_string(), 2, false, tags, 101).unwrap();
    manager.register_connector("c".to_string(), 3).unwrap();
    assert_eq!(manager.find_connectors_by_tag("region", "asia"), vec!["a".to_string()]);
    assert!(manager.find_connectors_by_tag("region", "africa").is_empty());
    assert_eq!(manager.list_connectors_async(), vec!["a".to_string(), "b".to_string(), "c".to_string()]);
    let t = manager.get_connector_tags("b").unwrap();
    assert_eq!(t.get("region").map(|s| s.as_str()), Some("europe"));
    assert!(manager.get_connector_tags("z").is_none());
    assert!(manager.get_connector("a").is_none());
    assert!(manager.list_connectors().is_empty());
    assert!(manager.start_all().is_ok());
    let statuses = manager.status_all();
    assert_eq!(statuses.len(), 3);
    assert!(statuses.iter().all(|(_, s)| *s == ModernConnectionStatus::Disconnected));
    let health = manager.health_check_all_at(5);
    assert_eq!(health[2].0, "c");
    assert!(!health[2].1.healthy);
    assert_eq!(health[2].1.warnings, vec!["未实现健康检查".to_string()]);
}

#[test]
fn test_manager_error_texts() {
    let e: ManagerError = ConnectorError::TradingNotImplemented.into();
    assert!(e.message().starts_with("连接器操作失败: "));
    assert_eq!(ManagerError::InvalidState { message: "x".to_string() }.message(), "管理器状态错误: x");
}

#[test]
fn test_config_manager_creation() {
    let manager: ConfigManager<String> = ConfigManager::new("/tmp/config");
    assert_eq!(manager.list_keys().len(), 0);
    assert_eq!(manager.config_dir(), "/tmp/config");
}

#[test]
fn test_config_store_and_remove() {
    let mut manager: ConfigManager<String> = ConfigManager::new("/tmp/config");
    manager.store("test".to_string(), "port = 8080".to_string(), ConfigMetadata::loaded(ConfigSource::Memory("test_source".to_string()), 7));
    assert!(manager.contains("test"));
    assert_eq!(manager.get_raw("test").unwrap(), "port = 8080");
    assert_eq!(manager.get_metadata("test").unwrap().loaded_at, 7);
    assert_eq!(manager.reload_action("test").unwrap(), ReloadAction::Keep);
    assert!(manager.remove("test").is_ok());
    assert!(!manager.contains("test"));
    match manager.remove("test") {
        Err(e) => assert_eq!(e.message(), "配置不存在: test"),
        Ok(()) => panic!("expected a missing configuration"),
    }
}

#[test]
fn test_config_merge_check_and_reload() {
    let mut manager: ConfigManager<u8> = ConfigManager::new("cfg").with_env_override(false);
    manager.store("file".to_string(), 1, ConfigMetadata::loaded(ConfigSource::File("cfg/file.toml".to_string()), 1));
    manager.store("env".to_string(), 2, ConfigMetadata::loaded(ConfigSource::Environment("APP".to_string()), 2));
    assert_eq!(manager.reload_action("file").unwrap(), ReloadAction::ReadFile("cfg/file.toml".to_string()));
    assert_eq!(manager.reload_action("env").unwrap(), ReloadAction::ReadEnvironment("APP".to_string()));
    assert!(manager.check_merge("file", "env").is_ok());
    assert!(matches!(manager.check_merge("nope", "env"), Err(ConfigError::ConfigNotFound { key }) if key == "nope"));
    assert!(matches!(manager.check_merge("file", "gone"), Err(ConfigError::ConfigNotFound { key }) if key == "gone"));
    assert_eq!(manager.list_keys(), vec!["file".to_string(), "env".to_string()]);
}

#[test]
fn test_env_config_keys() {
    assert_eq!(env_config_key("APP__DB_HOST", "APP"), Some("db_host".to_string()));
    assert_eq!(env_config_key("APP", "APP"), Some("".to_string()));
    assert_eq!(env_config_key("OTHER_X", "APP"), None);
    assert_eq!(ConfigError::ValidationError { message: "端口必须小于1024".to_string() }.message(), "配置验证失败: 端口必须小于1024");
}

#[test]
fn test_connector_access_by_id() {
    let mut manager: DefaultModernConnectorManager<u32> = DefaultModernConnectorManager::new();
    manager.register_connector("seven".to_string(), 7).unwrap();
    assert_eq!(manager.get_connector_async("seven"), Some(7));
    assert_eq!(manager.get_connector_async("eight"), None);
    assert_eq!(manager.with_connector_async("seven", |c: &u32| *c * 2).unwrap(), 14);
    match manager.with_connector_async("eight", |c: &u32| *c) {
        Err(e) => assert_eq!(e.message(), "连接器不存在: eight"),
        Ok(_) => panic!("expected a missing connector"),
    }
}

const TEST_CONFIG: &str = r#"
            name = "test"
            port = 8080
            enabled = true
        "#;

#[test]
fn test_load_from_string() {
    let mut manager: ConfigManager<toml::Value> = ConfigManager::new("/tmp/config");
    let result = manager.load_from_string("test".to_string(), TEST_CONFIG, "test_source".to_string(), 0);
    assert!(result.is_ok());
    assert!(manager.contains("test"));
    let config = manager.get_raw("test").unwrap();
    assert_eq!(config.get("name").and_then(|v| v.as_str()), Some("test"));
    assert_eq!(config.get("port").and_then(|v| v.as_integer()), Some(8080));
    assert_eq!(config.get("enabled").and_then(|v| v.as_bool()), Some(true));
}

#[test]
fn test_config_validation() {
    let mut manager: ConfigManager<toml::Value> = ConfigManager::new("/tmp/config");
    manager.load_from_string("test".to_string(), TEST_CONFIG, "test_source".to_string(), 0).unwrap();
    let port = manager.get_raw("test").unwrap().get("port").and_then(|v| v.as_integer()).unwrap();
    let above = |p: i64| -> Result<(), String> { if p > 1024 { Ok(()) } else { Err("端口必须大于1024".to_string()) } };
    assert!(above(port).is_ok());
    let below = |p: i64| -> Result<(), String> { if p < 1024 { Ok(()) } else { Err("端口必须小于1024".to_string()) } };
    assert!(below(port).is_err());
}

#[test]
fn test_config_removal() {
    let mut manager: ConfigManager<toml::Value> = ConfigManager::new("/tmp/config");
    manager.load_from_string("test".to_string(), TEST_CONFIG, "test_source".to_string(), 0).unwrap();
    assert!(manager.contains("test"));
    let result = manager.remove("test");
    assert!(result.is_ok());
    assert!(!manager.contains("test"));
}

#[test]
fn test_load_from_string_refuses_bad_toml() {
    let mut manager: ConfigManager<toml::Value> = ConfigManager::new("/tmp/config");
    match manager.load_from_string("bad".to_string(), "name = ", "test_source".to_string(), 3) {
        Err(ConfigError::ParseError { .. }) => {}
        _ => panic!("expected a parse error"),
    }
    assert!(!manager.contains("bad"));
    manager.load_from_string("good".to_string(), "x = 1", "mem".to_string(), 3).unwrap();
    assert_eq!(manager.get_metadata("good").unwrap().loaded_at, 3);
}
