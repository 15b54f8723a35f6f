pub mod adaptive_timeout;
pub mod advanced_connection;
pub mod batch_subscription;
pub mod emergency_ping;
pub mod orderbook_validator;
pub mod smart_error_recovery;
pub mod symbol_converter;
pub mod user_data_parser;
