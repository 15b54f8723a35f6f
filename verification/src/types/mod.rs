pub mod account;
pub mod common;
pub mod config;
pub mod errors;
pub mod events;
pub mod exchange;
pub mod market_data;
pub mod orders;
pub mod trading;
