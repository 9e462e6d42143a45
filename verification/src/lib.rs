//! Parsing and decision logic behind a desktop front end for the `asdf`
//! version manager.

pub mod asdf;
pub mod commands;
pub mod config;
pub mod error;
pub mod paths;
pub mod search;
pub mod text;
pub mod types;
