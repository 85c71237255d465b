//! Serving files.

pub mod static_handler;
