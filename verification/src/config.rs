//! Application configuration data.

pub mod settings;
