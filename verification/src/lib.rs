pub mod clock;
pub mod connectors;
pub mod decimal;
pub mod json_parser;
pub mod network;
pub mod sinks;
pub mod str_map;
pub mod text;
pub mod types;
