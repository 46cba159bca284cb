pub mod amounts;
pub mod config;
pub mod types;
pub mod views;
