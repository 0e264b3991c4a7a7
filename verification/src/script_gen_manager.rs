//! The script model: instruments, sweep parameters, and the functions that
//! make up a generated script.
pub mod catalog;
pub mod channel_range;
pub mod device;
pub mod device_manager;
pub mod device_io;
pub mod function;
pub mod metadata;
pub mod models;
pub mod parameters;
pub mod script;
pub mod sweep;
pub mod sweep_config;
pub mod system;
