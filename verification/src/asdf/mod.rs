//! Talking to the `asdf` executable: what to run and how to read what it prints.

pub mod executor;
pub mod parser;
