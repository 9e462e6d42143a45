//! The front end's own configuration, and what requests need of it.

pub mod app_config;
pub mod context;
