use crossfury::connectors::common::symbol_converter::{
    parse_no_separator, parse_with_separator, SymbolConverter, SymbolConverterConfig, SymbolFormat,
};

#[test]
fn test_symbol_converter_creation() {
    let converter = SymbolConverter::with_default_config();
    let stats = converter.get_cache_stats();
    assert_eq!(stats.total_entries, 0);
}

#[test]
fn test_detect_format() {
    let mut converter = SymbolConverter::with_default_config();
    assert!(matches!(converter.detect_format("BTC_USDT").unwrap(), SymbolFormat::Underscore));
    assert!(matches!(converter.detect_format("BTC/USDT").unwrap(), SymbolFormat::Slash));
    assert!(matches!(converter.detect_format("BTC-USDT").unwrap(), SymbolFormat::Hyphen));
    assert!(matches!(converter.detect_format("BTCUSDT").unwrap(), SymbolFormat::NoSeparator));
}

#[test]
fn test_parse_symbol() {
    let mut converter = SymbolConverter::with_default_config();
    let info = converter.parse_symbol("BTC_USDT").unwrap();
    assert_eq!(info.base_currency, "BTC");
    assert_eq!(info.quote_currency, "USDT");
    assert!(matches!(info.detected_format, SymbolFormat::Underscore));
    let info = converter.parse_symbol("ETH/BTC").unwrap();
    assert_eq!(info.base_currency, "ETH");
    assert_eq!(info.quote_currency, "BTC");
    assert!(matches!(info.detected_format, SymbolFormat::Slash));
}

#[test]
fn test_parse_no_separator() {
    let mut converter = SymbolConverter::with_default_config();
    let info = converter.parse_symbol("BTCUSDT").unwrap();
    assert_eq!(info.base_currency, "BTC");
    assert_eq!(info.quote_currency, "USDT");
    let info = converter.parse_symbol("ETHBUSD").unwrap();
    assert_eq!(info.base_currency, "ETH");
    assert_eq!(info.quote_currency, "BUSD");
}

#[test]
fn test_convert_formats() {
    let mut converter = SymbolConverter::with_default_config();
    assert_eq!(converter.convert_to_underscore_format("BTC/USDT").unwrap().converted_symbol, "BTC_USDT");
    assert_eq!(converter.convert_to_slash_format("BTC_USDT").unwrap().converted_symbol, "BTC/USDT");
    assert_eq!(converter.convert_to_no_separator_format("BTC-USDT").unwrap().converted_symbol, "BTCUSDT");
    assert_eq!(converter.convert_to_hyphen_format("BTCUSDT").unwrap().converted_symbol, "BTC-USDT");
}

#[test]
fn test_batch_convert() {
    let mut converter = SymbolConverter::with_default_config();
    let symbols = vec!["BTC_USDT".to_string(), "ETH/BTC".to_string(), "ADAUSDT".to_string()];
    let results = converter.batch_convert(&symbols, &SymbolFormat::Slash);
    assert_eq!(results.len(), 3);
    assert_eq!(results[0].as_ref().unwrap().converted_symbol, "BTC/USDT");
    assert_eq!(results[1].as_ref().unwrap().converted_symbol, "ETH/BTC");
    assert_eq!(results[2].as_ref().unwrap().converted_symbol, "ADA/USDT");
}

#[test]
fn test_cache_functionality() {
    let mut converter = SymbolConverter::with_default_config();
    let result1 = converter.convert_to_underscore_format("BTC/USDT").unwrap();
    assert!(!result1.from_cache);
    let result2 = converter.convert_to_underscore_format("BTC/USDT").unwrap();
    assert!(result2.from_cache);
    assert_eq!(result1.converted_symbol, result2.converted_symbol);
    converter.clear_cache();
    assert_eq!(converter.get_cache_stats().total_entries, 0);
}

#[test]
fn test_validate_symbol() {
    let mut converter = SymbolConverter::with_default_config();
    assert!(converter.validate_symbol("BTC_USDT").unwrap());
    assert!(converter.validate_symbol("ETH/BTC").unwrap());
    assert!(!converter.validate_symbol("").unwrap());
    let mut strict_config = SymbolConverterConfig::default();
    strict_config.strict_mode = true;
    let mut strict_converter = SymbolConverter::new(strict_config);
    assert!(strict_converter.validate_symbol("INVALID@FORMAT").is_err());
    assert!(strict_converter.validate_symbol("A").is_err());
}

#[test]
fn test_plain_splitting() {
    let (b, q) = parse_with_separator("SOL-USDC", '-').unwrap();
    assert_eq!((b.as_str(), q.as_str()), ("SOL", "USDC"));
    assert!(parse_with_separator("A-B-C", '-').is_err());
    let (b, q) = parse_no_separator("DOGEETH").unwrap();
    assert_eq!((b.as_str(), q.as_str()), ("DOGE", "ETH"));
}

#[test]
fn test_compiled_pattern_success() {
    assert!(crossfury::connectors::common::symbol_converter::CompiledPattern::compile("^([A-Z0-9]+)_([A-Z0-9]+)$").is_ok());
    assert!(crossfury::connectors::common::symbol_converter::CompiledPattern::compile("([A-Z").is_err());
}

#[test]
fn test_fresh_converter_compiles_its_patterns() {
    let mut converter = SymbolConverter::with_default_config();
    assert!(converter.init_regex().is_ok());
    assert!(converter.init_regex().is_ok());
}

#[test]
fn test_batch_repeat_comes_from_cache() {
    let mut converter = SymbolConverter::with_default_config();
    let symbols = vec!["BTC_USDT".to_string(), "ETH/BTC".to_string(), "BTC_USDT".to_string()];
    let results = converter.batch_convert(&symbols, &SymbolFormat::Hyphen);
    let first = results[0].as_ref().unwrap();
    let again = results[2].as_ref().unwrap();
    assert!(!first.from_cache);
    assert!(again.from_cache);
    assert_eq!(first.converted_symbol, "BTC-USDT");
    assert_eq!(again.converted_symbol, "BTC-USDT");
}
