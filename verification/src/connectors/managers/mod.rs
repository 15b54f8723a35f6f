pub mod config_manager;
pub mod modern_manager;
