//! The way of a request through the server: parse, dispatch, serialize.

pub mod connection;
pub mod request;
pub mod response;
