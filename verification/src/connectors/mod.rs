pub mod common;
pub mod lbank;
pub mod managers;
pub mod traits;
